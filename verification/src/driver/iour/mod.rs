//! The driver for systems with submission and completion rings.
//!
//! A queued submission describes the request to put into the ring; the pointers to the buffers are filled in
//! where the request is put there. The driver follows what the ring holds: a submission leaves its queue when
//! the kernel has taken it.
pub mod laws;
pub mod op;
pub mod op_laws;

use vstd::prelude::*;

use std::collections::VecDeque;
use std::marker::PhantomData;

use crate::driver::unix::{IntoFdOrFixed, RawFd};
use crate::driver::attempts::place;
use crate::driver::{has_key, user_datas, CompleteIo, Entry, OpObject, Operation};
use crate::error::{IoError, IoResult};
use crate::time::{Duration, NANOS_PER_SEC};

verus! {

/// Attached file descriptor.
#[derive(Clone, Copy, Debug, PartialEq, Eq, Structural)]
pub struct Fd {
    /// The descriptor as the system numbers it.
    pub raw_fd: RawFd,
}

impl Fd {
    /// Wraps a descriptor.
    pub fn from_raw(raw_fd: RawFd) -> (fd: Self)
        ensures
            fd == (Fd { raw_fd }),
    {
        Fd { raw_fd }
    }

    /// The descriptor as the system numbers it.
    pub fn as_raw_fd(&self) -> (raw_fd: RawFd)
        ensures
            raw_fd == self.raw_fd,
    {
        self.raw_fd
    }
}

/// Fixed fd is offset in registered files array.
#[derive(Clone, Copy, Debug, PartialEq, Eq, Structural)]
pub struct FixedFd {
    /// The offset.
    pub offset: u32,
}

impl FixedFd {
    /// Wraps an offset.
    pub fn from_offset(offset: u32) -> (fd: Self)
        ensures
            fd == (FixedFd { offset }),
    {
        FixedFd { offset }
    }

    /// The offset.
    pub fn as_offset(&self) -> (offset: u32)
        ensures
            offset == self.offset,
    {
        self.offset
    }
}

/// FdOrFixed is either raw fd or fixed id/offset in registered files array.
#[derive(Clone, Copy, Debug, PartialEq, Eq, Structural)]
pub enum FdOrFixed {
    /// Attached Fd.
    Fd(Fd),
    /// Attached Fd with fixed id.
    Fixed(FixedFd),
}

impl IntoFdOrFixed for Fd {
    type Target = FdOrFixed;

    open spec fn target(self) -> FdOrFixed {
        FdOrFixed::Fd(self)
    }

    fn into(self) -> (target: FdOrFixed) {
        FdOrFixed::Fd(self)
    }
}

impl IntoFdOrFixed for FixedFd {
    type Target = FdOrFixed;

    open spec fn target(self) -> FdOrFixed {
        FdOrFixed::Fixed(self)
    }

    fn into(self) -> (target: FdOrFixed) {
        FdOrFixed::Fixed(self)
    }
}

/// Invalid file descriptor value could be used as an initial value of uninitialized file descriptor.
pub const INVALID_FD: RawFd = -1;

/// The user data of the request that updates the registered files.
pub const FILES_UPDATE_KEY: u64 = u64::MAX;

/// What stands in an update of the registered files for a file that stays as it is.
pub const SKIP_FILE: RawFd = -2;

/// A request to the kernel, but for its pointers.
#[derive(Clone, Copy, Debug, PartialEq, Eq, Structural)]
pub enum SqOp {
    /// Read `len` bytes at `offset`.
    Read { fd: FdOrFixed, len: u32, offset: u64 },
    /// Write `len` bytes at `offset`.
    Write { fd: FdOrFixed, len: u32, offset: u64 },
    /// Sync the file, or only its data.
    Fsync { fd: FdOrFixed, datasync: bool },
    /// Accept a connection.
    Accept { fd: FdOrFixed },
    /// Connect to an address of the given length.
    Connect { fd: FdOrFixed, addr_len: u32 },
    /// Receive `len` bytes.
    Recv { fd: FdOrFixed, len: u32 },
    /// Read into `count` buffers.
    Readv { fd: FdOrFixed, count: u32 },
    /// Send `len` bytes.
    Send { fd: FdOrFixed, len: u32 },
    /// Write from `count` buffers.
    Writev { fd: FdOrFixed, count: u32 },
    /// Receive a message.
    RecvMsg { fd: FdOrFixed },
    /// Send a message.
    SendMsg { fd: FdOrFixed },
    /// Complete when the time has passed, counting the time the system spends suspended.
    Timeout { sec: u64, nsec: u32 },
    /// Close a descriptor.
    Close { raw_fd: RawFd },
    /// Cancel the request with this user data.
    AsyncCancel { user_data: u64 },
    /// Update the first `len` registered files.
    FilesUpdate { len: u32 },
}

/// A request with its user data.
#[derive(Clone, Copy, Debug, PartialEq, Eq, Structural)]
pub struct SqEntry {
    /// The request.
    pub op: SqOp,
    /// The user data.
    pub user_data: u64,
}

/// A completion that the kernel reports.
#[derive(Clone, Copy, Debug, PartialEq, Eq, Structural)]
pub struct Cqe {
    /// The user data of the request.
    pub user_data: u64,
    /// The result: an error code, negated, if it is negative.
    pub result: i32,
}

/// Abstraction of operations.
pub trait OpCode: Sized {
    /// The operation can be turned into a request.
    open spec fn ready(&self) -> bool {
        arbitrary()
    }

    /// The request.
    open spec fn request(&self) -> SqOp {
        arbitrary()
    }

    /// Creates the request.
    fn create_entry(&mut self) -> (op: SqOp)
        requires
            old(self).ready(),
        ensures
            op == old(self).request(),
    ;
}

/// The error codes that the driver looks at, as the platform numbers them.
#[derive(Clone, Copy, Debug, PartialEq, Eq, Structural)]
pub struct ErrorCodes {
    /// The time is over.
    pub etime: i32,
    /// There is no such request.
    pub enoent: i32,
    /// The request has progressed too far to be cancelled.
    pub ealready: i32,
    /// Completions have to be processed first.
    pub ebusy: i32,
    /// The kernel is short of resources.
    pub eagain: i32,
}

impl ErrorCodes {
    /// Error codes are positive.
    pub open spec fn valid(&self) -> bool {
        self.etime > 0 && self.enoent > 0 && self.ealready > 0 && self.ebusy > 0 && self.eagain > 0
    }
}

/// How far an update of the registered files has come.
#[derive(Clone, Copy, Debug, PartialEq, Eq, Structural)]
pub enum FilesUpdateState {
    /// There is none.
    NoUpdateInProgress,
    /// It is in the submission queue.
    Pushed,
    /// It is submitted but not completed yet.
    Submitted,
}

/// How to set up the registered files.
#[derive(Debug)]
pub enum FilesSetup {
    /// There are none.
    Nothing,
    /// Ask for that many empty places.
    Sparse(u32),
    /// Register these descriptors, all of them invalid.
    Explicit(Vec<RawFd>),
}

/// What is left to be done to change a registered file.
#[derive(Clone, Copy, Debug, PartialEq, Eq, Structural)]
pub enum FileUpdate {
    /// Nothing: a queued request does it.
    Queued,
    /// Tell the kernel at once.
    Sync { offset: u32, fd: RawFd },
}

/// How to submit.
#[derive(Clone, Copy, Debug, PartialEq, Eq, Structural)]
pub enum SubmitMode {
    /// Wait for one completion, as long as it takes.
    Wait,
    /// Do not wait.
    NoWait,
    /// Wait for one completion until the time is over.
    WaitFor { sec: u64, nsec: u32 },
}

/// How to submit with a timeout.
pub open spec fn submit_mode(timeout: Option<Duration>) -> SubmitMode {
    match timeout {
        None => SubmitMode::Wait,
        Some(timeout) => if timeout@ == 0 {
            SubmitMode::NoWait
        } else {
            SubmitMode::WaitFor {
                sec: (timeout@ / (NANOS_PER_SEC as nat)) as u64,
                nsec: (timeout@ % (NANOS_PER_SEC as nat)) as u32,
            }
        },
    }
}

/// What a completion reports of its request, if it is one of the caller's. A request to cancel something that
/// is not there, or that cannot be cancelled any more, is not reported.
pub open spec fn completion_entry(cqe: Cqe, codes: ErrorCodes) -> Option<Entry> {
    if cqe.user_data == FILES_UPDATE_KEY {
        None
    } else if cqe.result == -codes.etime {
        Some(Entry { user_data: cqe.user_data as usize, result: Ok(0) })
    } else if cqe.result == -codes.enoent || cqe.result == -codes.ealready {
        None
    } else if cqe.result < 0 {
        Some(Entry { user_data: cqe.user_data as usize, result: Err(IoError::Os((-cqe.result) as i32)) })
    } else {
        Some(Entry { user_data: cqe.user_data as usize, result: Ok(cqe.result as usize) })
    }
}

/// The entries of completions, in their order.
pub open spec fn completion_entries(cqes: Seq<Cqe>, codes: ErrorCodes) -> Seq<Entry>
    decreases cqes.len(),
{
    if cqes.len() == 0 {
        Seq::empty()
    } else {
        let rest = completion_entries(cqes.drop_last(), codes);
        match completion_entry(cqes.last(), codes) {
            Some(entry) => rest.push(entry),
            None => rest,
        }
    }
}

/// One of the completions is that of an update of the registered files.
pub open spec fn completes_update(cqes: Seq<Cqe>) -> bool {
    exists|i: int| 0 <= i < cqes.len() && (#[trigger] cqes[i]).user_data == FILES_UPDATE_KEY
}

/// As many files as there are, none of which is to change.
pub open spec fn all_skipped(len: nat) -> Seq<RawFd> {
    Seq::new(len, |i: int| SKIP_FILE)
}

/// Low-level driver of a ring.
pub struct Driver<'arena, O: OpCode> {
    /// How many requests the submission queue takes.
    capacity: usize,
    codes: ErrorCodes,
    squeue: VecDeque<SqEntry>,
    /// The files to register with the update that is in the queue.
    files_update_fds: Vec<RawFd>,
    files_update_state: FilesUpdateState,
    _lifetime: PhantomData<&'arena O>,
}

/// How the registered files are set up: `sparse_supported` tells whether the kernel can be asked for empty
/// places.
pub fn files_setup(files_to_register: u32, sparse_supported: bool) -> (setup: FilesSetup)
    ensures
        files_to_register == 0 ==> setup is Nothing,
        files_to_register > 0 && sparse_supported ==> setup == FilesSetup::Sparse(files_to_register),
        files_to_register > 0 && !sparse_supported ==> {
            &&& setup matches FilesSetup::Explicit(files)
            &&& files@ == Seq::new(files_to_register as nat, |i: int| INVALID_FD)
        },
{
    if files_to_register == 0 {
        FilesSetup::Nothing
    } else if sparse_supported {
        FilesSetup::Sparse(files_to_register)
    } else {
        FilesSetup::Explicit(repeated(INVALID_FD, files_to_register as usize))
    }
}

/// A descriptor as often as asked for.
fn repeated(fd: RawFd, count: usize) -> (fds: Vec<RawFd>)
    ensures
        fds@ == Seq::new(count as nat, |i: int| fd),
{
    let mut fds: Vec<RawFd> = Vec::with_capacity(count);
    while fds.len() < count
        invariant
            fds.len() <= count,
            fds@ =~= Seq::new(fds@.len(), |i: int| fd),
        decreases count - fds.len(),
    {
        fds.push(fd);
    }
    fds
}

impl<'arena, O: OpCode> Driver<'arena, O> {
    /// The submission queue.
    pub closed spec fn squeue(&self) -> Seq<SqEntry> {
        self.squeue@
    }

    /// How many requests the submission queue takes.
    pub closed spec fn limit(&self) -> nat {
        self.capacity as nat
    }

    /// The error codes of the platform.
    pub closed spec fn codes(&self) -> ErrorCodes {
        self.codes
    }

    /// The files to register with the update that is in the queue.
    pub closed spec fn files(&self) -> Seq<RawFd> {
        self.files_update_fds@
    }

    /// How far an update of the registered files has come.
    pub closed spec fn update_state(&self) -> FilesUpdateState {
        self.files_update_state
    }

    /// The request that updates the registered files.
    pub open spec fn update_entry(&self) -> SqEntry {
        SqEntry {
            op: SqOp::FilesUpdate { len: self.files().len() as u32 },
            user_data: FILES_UPDATE_KEY,
        }
    }

    /// What holds of the driver between two calls: without an update no file is set aside for one, and an
    /// update that was pushed is in the queue.
    pub open spec fn wf(&self) -> bool {
        &&& self.squeue().len() <= self.limit()
        &&& self.codes().valid()
        &&& self.files().len() <= u32::MAX
        &&& self.update_state() == FilesUpdateState::NoUpdateInProgress ==> self.files() == all_skipped(
            self.files().len(),
        )
        &&& self.update_state() == FilesUpdateState::Pushed ==> self.squeue().contains(
            self.update_entry(),
        )
    }

    /// Creates a driver for a ring whose submission queue takes `capacity` requests, and in which
    /// `files_to_register` places for files are set up.
    pub fn with(capacity: u32, files_to_register: u32, codes: ErrorCodes) -> (driver: Self)
        requires
            codes.valid(),
        ensures
            driver.wf(),
            driver.limit() == capacity,
            driver.codes() == codes,
            driver.squeue().len() == 0,
            driver.files() == all_skipped(files_to_register as nat),
            driver.update_state() == FilesUpdateState::NoUpdateInProgress,
    {
        Driver {
            capacity: capacity as usize,
            codes,
            squeue: VecDeque::with_capacity(capacity as usize),
            files_update_fds: repeated(SKIP_FILE, files_to_register as usize),
            files_update_state: FilesUpdateState::NoUpdateInProgress,
            _lifetime: PhantomData,
        }
    }

    /// Creates a driver for a ring with 1024 entries and without registered files.
    pub fn new(codes: ErrorCodes) -> (driver: Self)
        requires
            codes.valid(),
        ensures
            driver.wf(),
            driver.limit() == 1024,
            driver.codes() == codes,
            driver.squeue().len() == 0,
            driver.files().len() == 0,
            driver.update_state() == FilesUpdateState::NoUpdateInProgress,
    {
        Self::with(1024, 0, codes)
    }

    /// The requests that the ring holds or is to hold, the front of the queue first.
    pub fn requests(&self) -> (queue: &VecDeque<SqEntry>)
        ensures
            queue@ == self.squeue(),
    {
        &self.squeue
    }

    /// The files to register with the update that is in the queue.
    pub fn files_to_update(&self) -> (files: &Vec<RawFd>)
        ensures
            files@ == self.files(),
    {
        &self.files_update_fds
    }

    /// Attaches an fd to the driver. There is nothing to be done for it.
    pub fn attach(&mut self, fd: RawFd) -> (r: IoResult<Fd>)
        ensures
            *final(self) == *old(self),
            r == Ok::<Fd, IoError>(Fd { raw_fd: fd }),
    {
        Ok(Fd::from_raw(fd))
    }

    /// Starts to change a registered file, either by a request in the queue, shared by all the changes that
    /// are made before it is submitted, or, when the queue is full or such a request is under way, at once.
    fn register_fd_impl(&mut self, fd: RawFd, id: u32) -> (update: FileUpdate)
        requires
            old(self).wf(),
            id < old(self).files().len(),
        ensures
            final(self).wf(),
            final(self).limit() == old(self).limit(),
            final(self).codes() == old(self).codes(),
            file_update_started(*old(self), *final(self), fd, id, update),
    {
        if self.squeue.len() == self.capacity {
            // fallback to synchronous registration when squeue is full
            return FileUpdate::Sync { offset: id, fd };
        }
        match self.files_update_state {
            FilesUpdateState::Submitted => {
                // fallback to synchronous registration when async files update is not completed yet
                FileUpdate::Sync { offset: id, fd }
            },
            FilesUpdateState::NoUpdateInProgress => {
                // set the initial file update
                self.files_update_fds.set(id as usize, fd);
                // push update operation for all registered file descriptors
                let len: u32 = self.files_update_fds.len() as u32;
                self.squeue.push_back(
                    SqEntry { op: SqOp::FilesUpdate { len }, user_data: FILES_UPDATE_KEY },
                );
                self.files_update_state = FilesUpdateState::Pushed;
                assert(self.squeue()[self.squeue().len() - 1] == self.update_entry());
                FileUpdate::Queued
            },
            FilesUpdateState::Pushed => {
                // accumulate more updates in `files_update_fds`
                self.files_update_fds.set(id as usize, fd);
                assert(self.update_entry() == old(self).update_entry());
                FileUpdate::Queued
            },
        }
    }

    /// Takes note of what telling the kernel at once, where that was necessary, came to: an update that is still in
    /// the queue must not undo a change that was made.
    fn file_update_done(&mut self, update: FileUpdate, sync: IoResult<()>)
        requires
            old(self).wf(),
            update matches FileUpdate::Sync { offset, .. } ==> offset < old(self).files().len(),
        ensures
            final(self).wf(),
            final(self).limit() == old(self).limit(),
            final(self).codes() == old(self).codes(),
            file_update_finished(*old(self), *final(self), update, sync),
    {
        if let (FileUpdate::Sync { offset, fd }, Ok(()), FilesUpdateState::Pushed) = (
            update,
            sync,
            self.files_update_state,
        ) {
            self.files_update_fds.set(offset as usize, fd);
            assert(self.update_entry() == old(self).update_entry());
        }
    }

    /// Registers an fd as fixed file descriptor with the provided fixed id. The provided fd will override a
    /// previously registered fd.
    pub fn register_fd(&mut self, fd: RawFd, id: u32) -> (update: FileUpdate)
        requires
            old(self).wf(),
            id < old(self).files().len(),
        ensures
            final(self).wf(),
            final(self).limit() == old(self).limit(),
            final(self).codes() == old(self).codes(),
            file_update_started(*old(self), *final(self), fd, id, update),
    {
        self.register_fd_impl(fd, id)
    }

    /// The fixed fd that was registered by an update, given what telling the kernel at once, if that was necessary,
    /// came to. If it failed, the file that was registered before stays.
    pub fn registered_fd(&mut self, id: u32, update: FileUpdate, sync: IoResult<()>) -> (r: IoResult<FixedFd>)
        requires
            old(self).wf(),
            update matches FileUpdate::Sync { offset, .. } ==> offset < old(self).files().len(),
        ensures
            final(self).wf(),
            final(self).limit() == old(self).limit(),
            final(self).codes() == old(self).codes(),
            file_update_finished(*old(self), *final(self), update, sync),
            r == match sync {
                Ok(()) => Ok(FixedFd { offset: id }),
                Err(error) => Err(error),
            },
    {
        self.file_update_done(update, sync);
        match sync {
            Ok(()) => Ok(FixedFd::from_offset(id)),
            Err(error) => Err(error),
        }
    }

    /// Unregisters a fixed fd: its place is taken by an invalid one.
    pub fn unregister_fd(&mut self, fixed_fd: FixedFd) -> (update: FileUpdate)
        requires
            old(self).wf(),
            fixed_fd.offset < old(self).files().len(),
        ensures
            final(self).wf(),
            final(self).limit() == old(self).limit(),
            final(self).codes() == old(self).codes(),
            file_update_started(*old(self), *final(self), INVALID_FD, fixed_fd.offset, update),
    {
        self.register_fd_impl(INVALID_FD, fixed_fd.as_offset())
    }

    /// What unregistering by an update came to, given what telling the kernel at once, if that was necessary, came
    /// to. If it failed, the file stays registered.
    pub fn unregistered_fd(&mut self, update: FileUpdate, sync: IoResult<()>) -> (r: IoResult<()>)
        requires
            old(self).wf(),
            update matches FileUpdate::Sync { offset, .. } ==> offset < old(self).files().len(),
        ensures
            final(self).wf(),
            final(self).limit() == old(self).limit(),
            final(self).codes() == old(self).codes(),
            file_update_finished(*old(self), *final(self), update, sync),
            r == sync,
    {
        self.file_update_done(update, sync);
        sync
    }

    /// Says how to submit the queued requests with an optional timeout.
    ///
    /// If the timeout is not zero the submission blocks until a request completes. If no timeout is specified,
    /// it blocks forever. If the timeout is zero no waiting is performed.
    pub fn submit(&mut self, timeout: Option<Duration>) -> (mode: SubmitMode)
        requires
            old(self).wf(),
        ensures
            final(self).wf(),
            final(self).limit() == old(self).limit(),
            final(self).codes() == old(self).codes(),
            final(self).squeue() == old(self).squeue(),
            final(self).files() == old(self).files(),
            final(self).update_state() == if old(self).update_state() == FilesUpdateState::Pushed {
                FilesUpdateState::Submitted
            } else {
                old(self).update_state()
            },
            mode == submit_mode(timeout),
    {
        if let FilesUpdateState::Pushed = self.files_update_state {
            self.files_update_state = FilesUpdateState::Submitted;
        }
        match timeout {
            None => SubmitMode::Wait,
            Some(timeout) => {
                if timeout.is_zero() {
                    SubmitMode::NoWait
                } else {
                    // wait till timeout
                    SubmitMode::WaitFor { sec: timeout.as_secs(), nsec: timeout.subsec_nanos() }
                }
            },
        }
    }

    /// What the outcome of submitting means: timeouts are expected, and where the kernel wants completions to
    /// be processed first, that comes next anyway.
    pub fn submit_result(&self, outcome: Result<usize, i32>) -> (r: IoResult<()>)
        ensures
            r == match outcome {
                Ok(_) => Ok(()),
                Err(code) => if code == self.codes().etime || code == self.codes().ebusy || code
                    == self.codes().eagain {
                    Ok(())
                } else {
                    Err(IoError::Os(code))
                },
            },
    {
        match outcome {
            Ok(_) => Ok(()),
            Err(code) => {
                if code == self.codes.etime || code == self.codes.ebusy || code == self.codes.eagain {
                    Ok(())
                } else {
                    Err(IoError::Os(code))
                }
            },
        }
    }

    /// Takes note of how many requests the kernel has left in the ring: the others leave the queue.
    pub fn requests_taken(&mut self, left: usize)
        requires
            old(self).wf(),
            old(self).update_state() != FilesUpdateState::Pushed,
            left <= old(self).squeue().len(),
        ensures
            final(self).wf(),
            final(self).limit() == old(self).limit(),
            final(self).codes() == old(self).codes(),
            final(self).files() == old(self).files(),
            final(self).update_state() == old(self).update_state(),
            final(self).squeue() == old(self).squeue().skip(old(self).squeue().len() - left),
    {
        let ghost all = self.squeue();
        proof {
            assert(all.skip(0) =~= all);
        }
        while self.squeue.len() > left
            invariant
                self.wf(),
                self.limit() == old(self).limit(),
                self.codes() == old(self).codes(),
                self.files() == old(self).files(),
                self.update_state() == old(self).update_state(),
                self.update_state() != FilesUpdateState::Pushed,
                left <= self.squeue().len() <= all.len(),
                self.squeue() == all.skip(all.len() - self.squeue().len()),
            decreases self.squeue@.len(),
        {
            let _ = self.squeue.pop_front();
            assert(self.squeue() =~= all.skip(all.len() - self.squeue().len()));
        }
    }

    /// Takes the completion of an update of the registered files.
    fn files_updated(&mut self)
        requires
            old(self).wf(),
        ensures
            final(self).wf(),
            final(self).limit() == old(self).limit(),
            final(self).codes() == old(self).codes(),
            final(self).squeue() == old(self).squeue(),
            final(self).files() == all_skipped(old(self).files().len()),
            final(self).update_state() == FilesUpdateState::NoUpdateInProgress,
    {
        let len: usize = self.files_update_fds.len();
        let mut i: usize = 0;
        while i < len
            invariant
                i <= len == self.files_update_fds.len(),
                len == old(self).files().len(),
                self.capacity == old(self).capacity,
                self.codes == old(self).codes,
                self.squeue == old(self).squeue,
                forall|j: int| 0 <= j < i ==> #[trigger] self.files_update_fds@[j] == SKIP_FILE,
            decreases len - i,
        {
            self.files_update_fds.set(i, SKIP_FILE);
            i += 1;
        }
        self.files_update_state = FilesUpdateState::NoUpdateInProgress;
        assert(self.files() =~= all_skipped(len as nat));
    }

    /// Takes the completions that the kernel reports. The completion of an update of the registered files
    /// makes way for the next update, and is not reported.
    pub fn complete_entries(&mut self, cqes: &Vec<Cqe>, entries: &mut Vec<Entry>)
        requires
            old(self).wf(),
            forall|i: int| 0 <= i < cqes@.len() ==> (#[trigger] cqes@[i]).result > i32::MIN,
        ensures
            final(self).wf(),
            final(self).limit() == old(self).limit(),
            final(self).codes() == old(self).codes(),
            final(self).squeue() == old(self).squeue(),
            final(entries)@ == old(entries)@ + completion_entries(cqes@, old(self).codes()),
            final(self).files() == if completes_update(cqes@) {
                all_skipped(old(self).files().len())
            } else {
                old(self).files()
            },
            final(self).update_state() == if completes_update(cqes@) {
                FilesUpdateState::NoUpdateInProgress
            } else {
                old(self).update_state()
            },
    {
        let timer_expired: i32 = -self.codes.etime;
        let no_entry: i32 = -self.codes.enoent;
        let not_cancellable: i32 = -self.codes.ealready;
        let ghost codes = self.codes();
        let mut i: usize = 0;
        proof {
            assert(cqes@.take(0) =~= Seq::empty());
            assert(entries@ + completion_entries(cqes@.take(0), codes) =~= entries@);
        }
        while i < cqes.len()
            invariant
                i <= cqes@.len(),
                self.wf(),
                self.limit() == old(self).limit(),
                self.codes() == codes,
                codes == old(self).codes(),
                self.squeue() == old(self).squeue(),
                timer_expired == -codes.etime,
                no_entry == -codes.enoent,
                not_cancellable == -codes.ealready,
                forall|j: int| 0 <= j < cqes@.len() ==> (#[trigger] cqes@[j]).result > i32::MIN,
                entries@ == old(entries)@ + completion_entries(cqes@.take(i as int), codes),
                self.files() == if completes_update(cqes@.take(i as int)) {
                    all_skipped(old(self).files().len())
                } else {
                    old(self).files()
                },
                self.update_state() == if completes_update(cqes@.take(i as int)) {
                    FilesUpdateState::NoUpdateInProgress
                } else {
                    old(self).update_state()
                },
            decreases cqes@.len() - i,
        {
            let cqe = cqes[i];
            let ghost before = cqes@.take(i as int);
            let ghost now = cqes@.take(i + 1);
            proof {
                assert(now =~= before.push(cqe));
                assert(now.drop_last() =~= before);
                assert(now[i as int] == cqe);
                assert forall|j: int| 0 <= j < i implies now[j] == before[j] by {}
                assert(completes_update(now) == (completes_update(before) || cqe.user_data
                    == FILES_UPDATE_KEY)) by {
                    if completes_update(before) {
                        let j = choose|j: int|
                            0 <= j < before.len() && (#[trigger] before[j]).user_data
                                == FILES_UPDATE_KEY;
                        assert(now[j].user_data == FILES_UPDATE_KEY);
                    }
                }
            }
            if cqe.user_data == FILES_UPDATE_KEY {
                self.files_updated();
            } else if cqe.result == timer_expired {
                entries.push(Entry::new(cqe.user_data as usize, Ok(0)));
            } else if cqe.result == no_entry || cqe.result == not_cancellable {
                // a cancellation that came to nothing
            } else {
                entries.push(create_entry(cqe));
            }
            proof {
                assert(entries@ =~= old(entries)@ + completion_entries(now, codes));
            }
            i += 1;
        }
        proof {
            assert(cqes@.take(i as int) =~= cqes@);
        }
    }
}

/// The entry of a completion that stands for itself.
fn create_entry(cqe: Cqe) -> (entry: Entry)
    requires
        cqe.result > i32::MIN,
    ensures
        entry.user_data == cqe.user_data as usize,
        entry.result == if cqe.result < 0 {
            Err::<usize, IoError>(IoError::Os((-cqe.result) as i32))
        } else {
            Ok::<usize, IoError>(cqe.result as usize)
        },
{
    let result: IoResult<usize> = if cqe.result < 0 {
        Err(IoError::Os(-cqe.result))
    } else {
        Ok(cqe.result as usize)
    };
    Entry::new(cqe.user_data as usize, result)
}

/// What starting to change a registered file makes of a driver, and what is left to be done.
pub open spec fn file_update_started<'arena, O: OpCode>(
    before: Driver<'arena, O>,
    after: Driver<'arena, O>,
    fd: RawFd,
    id: u32,
    update: FileUpdate,
) -> bool {
    if before.squeue().len() == before.limit() || before.update_state() == FilesUpdateState::Submitted {
        &&& after == before
        &&& update == FileUpdate::Sync { offset: id, fd }
    } else {
        &&& after.files() == before.files().update(id as int, fd)
        &&& after.squeue() == if before.update_state() == FilesUpdateState::Pushed {
            before.squeue()
        } else {
            before.squeue().push(before.update_entry())
        }
        &&& after.update_state() == FilesUpdateState::Pushed
        &&& update == FileUpdate::Queued
    }
}

/// What telling the kernel at once, where that was necessary, makes of a driver: a change that was made is recorded
/// in an update that is still in the queue, and nothing else changes.
pub open spec fn file_update_finished<'arena, O: OpCode>(
    before: Driver<'arena, O>,
    after: Driver<'arena, O>,
    update: FileUpdate,
    sync: IoResult<()>,
) -> bool {
    match update {
        FileUpdate::Sync { offset, fd } if sync is Ok && before.update_state()
            == FilesUpdateState::Pushed => {
            &&& after.files() == before.files().update(offset as int, fd)
            &&& after.squeue() == before.squeue()
            &&& after.update_state() == before.update_state()
        },
        _ => after == before,
    }
}

/// The user data of requests, the front of the queue first.
pub open spec fn request_keys(requests: Seq<SqEntry>) -> Seq<u64> {
    requests.map_values(|entry: SqEntry| entry.user_data)
}

/// The request of an operation.
pub open spec fn request_of<'arena, O: OpCode>(op: OpObject<'arena, O>) -> SqEntry {
    SqEntry { op: op.code().request(), user_data: op.user_data as u64 }
}

/// The requests of operations, in their order.
pub open spec fn requests_of<'arena, O: OpCode>(ops: Seq<OpObject<'arena, O>>) -> Seq<SqEntry> {
    ops.map_values(|op: OpObject<'arena, O>| request_of(op))
}

/// One of the requests has this user data.
pub open spec fn has_request(requests: Seq<SqEntry>, user_data: usize) -> bool {
    exists|i: int| 0 <= i < requests.len() && (#[trigger] requests[i]).user_data == user_data
}

/// The user data of two queues, one behind the other.
proof fn lemma_has_request_add(a: Seq<SqEntry>, b: Seq<SqEntry>)
    ensures
        forall|u: usize| #[trigger] has_request(a + b, u) == (has_request(a, u) || has_request(b, u)),
{
    assert forall|u: usize| #[trigger]
        has_request(a + b, u) == (has_request(a, u) || has_request(b, u)) by {
        if has_request(a, u) {
            let i = choose|i: int| 0 <= i < a.len() && (#[trigger] a[i]).user_data == u;
            assert((a + b)[i].user_data == u);
        }
        if has_request(b, u) {
            let i = choose|i: int| 0 <= i < b.len() && (#[trigger] b[i]).user_data == u;
            assert((a + b)[a.len() + i].user_data == u);
        }
    }
}

impl<'arena, O: OpCode> Driver<'arena, O> {
    /// Puts a request into the submission queue, if there is room.
    fn push(&mut self, entry: SqEntry) -> (pushed: bool)
        requires
            old(self).wf(),
        ensures
            final(self).wf(),
            pushed == (old(self).squeue().len() < old(self).limit()),
            pushed ==> {
                &&& final(self).squeue() == old(self).squeue().push(entry)
                &&& final(self).limit() == old(self).limit()
                &&& final(self).codes() == old(self).codes()
                &&& final(self).files() == old(self).files()
                &&& final(self).update_state() == old(self).update_state()
            },
            !pushed ==> *final(self) == *old(self),
            pushed ==> forall|u: usize| #[trigger]
                has_request(final(self).squeue(), u) == (has_request(old(self).squeue(), u)
                    || entry.user_data == u),
    {
        if self.squeue.len() < self.capacity {
            self.squeue.push_back(entry);
            proof {
                lemma_has_request_add(old(self).squeue(), seq![entry]);
                assert(seq![entry][0].user_data == entry.user_data);
                assert(self.squeue() =~= old(self).squeue() + seq![entry]);
                if self.update_state() == FilesUpdateState::Pushed {
                    let i = choose|i: int|
                        0 <= i < old(self).squeue().len() && old(self).squeue()[i] == old(
                            self,
                        ).update_entry();
                    assert(self.squeue()[i] == self.update_entry());
                }
            }
            true
        } else {
            false
        }
    }
}

impl<'arena, O: OpCode> CompleteIo<'arena, O> for Driver<'arena, O> {
    open spec fn inv(&self) -> bool {
        self.wf()
    }

    open spec fn capacity(&self) -> nat {
        self.limit()
    }

    open spec fn queued(&self) -> Seq<u64> {
        request_keys(self.squeue())
    }

    open spec fn accepts(code: O) -> bool {
        code.ready()
    }

    open spec fn owes(&self, user_data: usize) -> bool {
        has_request(self.squeue(), user_data)
    }

    fn try_cancel(&mut self, user_data: usize) -> (r: Result<(), ()>)
        ensures
            r is Ok ==> final(self).squeue() == old(self).squeue().push(
                SqEntry {
                    op: SqOp::AsyncCancel { user_data: user_data as u64 },
                    user_data: user_data as u64,
                },
            ),
            final(self).codes() == old(self).codes(),
            final(self).files() == old(self).files(),
            final(self).update_state() == old(self).update_state(),
    {
        let entry = SqEntry {
            op: SqOp::AsyncCancel { user_data: user_data as u64 },
            user_data: user_data as u64,
        };
        if self.push(entry) {
            Ok(())
        } else {
            Err(())
        }
    }

    fn try_push(&mut self, op: Operation<'arena, O>) -> (r: Result<(), Operation<'arena, O>>)
        ensures
            r is Ok ==> final(self).squeue() == old(self).squeue().push(
                SqEntry { op: op.code().request(), user_data: op.user_data as u64 },
            ),
            r is Ok ==> exists|o: &mut O|
                {
                    &&& *o == op.code()
                    &&& *final(o) == *final(op.op)
                    &&& #[trigger] call_ensures(O::create_entry, (o,), op.code().request())
                },
            final(self).codes() == old(self).codes(),
            final(self).files() == old(self).files(),
            final(self).update_state() == old(self).update_state(),
    {
        let mut op = op;
        if self.squeue.len() == self.capacity {
            return Err(op);
        }
        let user_data: u64 = op.user_data() as u64;
        let entry = SqEntry { op: op.opcode().create_entry(), user_data };
        let _ = self.push(entry);
        assert(request_keys(self.squeue()) =~= request_keys(old(self).squeue()).push(user_data));
        Ok(())
    }

    fn try_push_dyn(&mut self, op: OpObject<'arena, O>) -> (r: Result<(), OpObject<'arena, O>>)
        ensures
            r is Ok ==> final(self).squeue() == old(self).squeue().push(request_of(op)),
            r is Ok ==> exists|o: &mut O|
                {
                    &&& *o == op.code()
                    &&& *final(o) == *final(op.op)
                    &&& #[trigger] call_ensures(O::create_entry, (o,), op.code().request())
                },
            final(self).codes() == old(self).codes(),
            final(self).files() == old(self).files(),
            final(self).update_state() == old(self).update_state(),
    {
        let mut op = op;
        if self.squeue.len() == self.capacity {
            return Err(op);
        }
        let user_data: u64 = op.user_data() as u64;
        let entry = SqEntry { op: op.opcode().create_entry(), user_data };
        let _ = self.push(entry);
        assert(request_keys(self.squeue()) =~= request_keys(old(self).squeue()).push(user_data));
        Ok(())
    }

    fn push_queue(&mut self, ops_queue: &mut VecDeque<OpObject<'arena, O>>)
        ensures
            final(self).squeue() + requests_of(final(ops_queue)@) == old(self).squeue() + requests_of(
                old(ops_queue)@,
            ),
            forall|i: int| #[trigger]
                place(i) && i < old(ops_queue)@.len() - final(ops_queue)@.len() ==> exists|o: &mut O|
                    {
                        &&& *o == old(ops_queue)@[i].code()
                        &&& *final(o) == *final(old(ops_queue)@[i].op)
                        &&& #[trigger] call_ensures(
                            O::create_entry,
                            (o,),
                            old(ops_queue)@[i].code().request(),
                        )
                    },
            final(self).codes() == old(self).codes(),
            final(self).files() == old(self).files(),
            final(self).update_state() == old(self).update_state(),
    {
        let left: usize = self.capacity - self.squeue.len();
        let to_drain: usize = if left < ops_queue.len() {
            left
        } else {
            ops_queue.len()
        };
        let ghost all = ops_queue@;
        let mut drained: usize = 0;
        proof {
            assert(all.skip(0) =~= all);
            assert(self.squeue() + requests_of(all.take(0)) =~= self.squeue());
        }
        while drained < to_drain
            invariant
                drained <= to_drain <= all.len(),
                to_drain <= old(self).limit() - old(self).squeue().len(),
                all == old(ops_queue)@,
                forall|i: int| 0 <= i < all.len() ==> (#[trigger] all[i]).code().ready(),
                self.wf(),
                self.limit() == old(self).limit(),
                self.codes() == old(self).codes(),
                self.files() == old(self).files(),
                self.update_state() == old(self).update_state(),
                ops_queue@ == all.skip(drained as int),
                self.squeue() == old(self).squeue() + requests_of(all.take(drained as int)),
                forall|i: int| #[trigger]
                    place(i) && i < drained ==> exists|o: &mut O|
                        {
                            &&& *o == all[i].code()
                            &&& *final(o) == *final(all[i].op)
                            &&& #[trigger] call_ensures(O::create_entry, (o,), all[i].code().request())
                        },
            decreases to_drain - drained,
        {
            let mut op = ops_queue.pop_front().unwrap();
            let ghost taken = op;
            assert(taken == all[drained as int]);
            let user_data: u64 = op.user_data() as u64;
            let entry = SqEntry { op: op.opcode().create_entry(), user_data };
            let _ = self.push(entry);
            proof {
                assert(exists|o: &mut O|
                    {
                        &&& *o == taken.code()
                        &&& *final(o) == *final(taken.op)
                        &&& #[trigger] call_ensures(O::create_entry, (o,), taken.code().request())
                    });
                assert(ops_queue@ =~= all.skip(drained + 1));
                assert(self.squeue() =~= old(self).squeue() + requests_of(all.take(drained + 1)));
            }
            drained += 1;
        }
        proof {
            assert(request_keys(self.squeue()) =~= request_keys(old(self).squeue()) + user_datas(
                all.take(to_drain as int),
            ));
            assert(self.squeue() + requests_of(ops_queue@) =~= old(self).squeue() + requests_of(all));
            let pushed = all.take(to_drain as int);
            lemma_has_request_add(old(self).squeue(), requests_of(pushed));
            assert forall|u: usize| has_key(pushed, u) implies #[trigger] has_request(
                requests_of(pushed),
                u,
            ) by {
                let i = choose|i: int| 0 <= i < pushed.len() && (#[trigger] pushed[i]).user_data == u;
                assert(requests_of(pushed)[i].user_data == u);
            }
        }
    }

    fn capacity_left(&self) -> (left: usize) {
        self.capacity - self.squeue.len()
    }
}

} // verus!
