use std::collections::VecDeque;

use completeio::buf::{IoBuf, IoBufMut};
use completeio::driver::iour::{
    Cqe, Driver, ErrorCodes, Fd, FdOrFixed, FileUpdate, FixedFd, OpCode, SqEntry, SqOp, SubmitMode, SKIP_FILE,
};
use completeio::driver::time::Timeout;
use completeio::driver::unix::op::ReadAt;
use completeio::driver::unix::IntoRawFd;
use completeio::driver::{CompleteIo, Entry, OpObject, Operation};
use completeio::error::IoError;
use completeio::time::Duration;

/// A buffer of which only the sizes matter.
struct Room {
    capacity: usize,
    init: usize,
}

impl IoBuf for Room {
    fn buf_len(&self) -> usize {
        self.init
    }
}

impl IoBufMut for Room {
    fn buf_capacity(&self) -> usize {
        self.capacity
    }

    fn set_buf_init(&mut self, len: usize) {
        self.init = len;
    }
}

/// An open file.
struct File {
    raw_fd: i32,
}

impl IntoRawFd for File {
    fn into_raw_fd(self) -> i32 {
        self.raw_fd
    }
}

/// The operations of the tests.
enum Op {
    ReadAt(ReadAt<FdOrFixed, Room>),
    CloseFd(Fd),
    CloseFile(Option<File>),
}

impl OpCode for Op {
    fn create_entry(&mut self) -> SqOp {
        match self {
            Op::ReadAt(op) => op.create_entry(),
            Op::CloseFd(op) => op.create_entry(),
            Op::CloseFile(op) => op.create_entry(),
        }
    }
}

fn codes() -> ErrorCodes {
    ErrorCodes {
        etime: libc::ETIME,
        enoent: libc::ENOENT,
        ealready: libc::EALREADY,
        ebusy: libc::EBUSY,
        eagain: libc::EAGAIN,
    }
}

/// A kernel that completes every request at once. All files have 700 bytes.
struct Kernel {
    files: Vec<i32>,
    closed: Vec<i32>,
}

impl Kernel {
    fn new(files: usize) -> Self {
        Kernel { files: vec![-1; files], closed: Vec::new() }
    }

    fn serve(&mut self, request: SqEntry, update: &[i32]) -> Cqe {
        let result: i32 = match request.op {
            SqOp::Read { fd, len, offset } => {
                let raw_fd: i32 = match fd {
                    FdOrFixed::Fd(fd) => fd.raw_fd,
                    FdOrFixed::Fixed(fixed) => self.files[fixed.offset as usize],
                };
                if raw_fd < 0 || self.closed.contains(&raw_fd) {
                    -libc::EBADF
                } else {
                    std::cmp::min(len as i32, 700 - offset as i32)
                }
            }
            SqOp::Close { raw_fd } => {
                self.closed.push(raw_fd);
                0
            }
            SqOp::FilesUpdate { len } => {
                for i in 0..len as usize {
                    if update[i] != SKIP_FILE {
                        self.files[i] = update[i];
                    }
                }
                len as i32
            }
            SqOp::AsyncCancel { .. } => -libc::ENOENT,
            _ => -libc::EINVAL,
        };
        Cqe { user_data: request.user_data, result }
    }

    fn submit(&mut self, driver: &mut Driver<'_, Op>, timeout: Option<Duration>, entries: &mut Vec<Entry>) -> Result<(), IoError> {
        let _ = driver.submit(timeout);
        let update: Vec<i32> = driver.files_to_update().clone();
        let requests: Vec<SqEntry> = driver.requests().iter().copied().collect();
        let outcome: Result<usize, i32> =
            if requests.is_empty() { Err(libc::ETIME) } else { Ok(requests.len()) };
        let cqes: Vec<Cqe> = requests.iter().map(|request| self.serve(*request, &update)).collect();
        driver.requests_taken(0);
        let result = driver.submit_result(outcome);
        driver.complete_entries(&cqes, entries);
        result
    }

    fn told(&mut self, update: FileUpdate) {
        if let FileUpdate::Sync { offset, fd } = update {
            self.files[offset as usize] = fd;
        }
    }
}

fn read_at(fd: FdOrFixed, capacity: usize) -> Op {
    Op::ReadAt(match fd {
        FdOrFixed::Fd(fd) => ReadAt::new(fd, 0, Room { capacity, init: 0 }),
        FdOrFixed::Fixed(fd) => ReadAt::new(fd, 0, Room { capacity, init: 0 }),
    })
}

#[test]
fn cancel_before_poll() {
    let mut kernel = Kernel::new(0);
    let mut driver: Driver<'_, Op> = Driver::new(codes());

    let fd = driver.attach(3).unwrap();

    driver.try_cancel(0).unwrap();

    let mut op = read_at(FdOrFixed::Fd(fd), 8);
    let mut ops = VecDeque::from([OpObject::new(&mut op, 0)]);
    driver.push_queue(&mut ops);
    let mut entries: Vec<Entry> = Vec::new();

    let res = kernel.submit(&mut driver, Some(Duration::new(1, 0)), &mut entries);
    res.unwrap();
    assert!(entries.len() <= 1);
}

#[test]
fn timeout() {
    let mut kernel = Kernel::new(0);
    let mut driver: Driver<'_, Op> = Driver::new(codes());

    let mut entries: Vec<Entry> = Vec::new();
    let res = kernel.submit(&mut driver, Some(Duration::from_millis(1)), &mut entries);
    res.unwrap();
}

#[test]
fn attach_read_multiple_and_close_attached() {
    const TASK_LEN: usize = 3;

    let mut kernel = Kernel::new(0);
    let mut driver: Driver<'_, Op> = Driver::new(codes());

    let fd = driver.attach(3).unwrap();

    let mut ops = [
        read_at(FdOrFixed::Fd(fd), 1024),
        read_at(FdOrFixed::Fd(fd), 1024),
        read_at(FdOrFixed::Fd(fd), 1024),
    ];
    let mut close = Op::CloseFd(fd);

    for (i, read) in ops.iter_mut().enumerate() {
        let op = Operation::new(read, i);
        driver.try_push(op).unwrap_or_else(|_| panic!("queue is full"));
    }

    let mut entries: Vec<Entry> = Vec::new();
    while entries.len() < TASK_LEN {
        kernel.submit(&mut driver, Some(Duration::from_millis(10)), &mut entries).unwrap();
    }
    for e in entries {
        e.into_result().unwrap();
    }

    // close attached fd
    driver.try_push(Operation::new(&mut close, 42)).unwrap_or_else(|_| panic!("queue is full"));

    let mut entries: Vec<Entry> = Vec::new();

    while entries.len() < 1 {
        kernel.submit(&mut driver, Some(Duration::from_millis(10)), &mut entries).unwrap();
    }
    for e in entries {
        e.into_result().unwrap();
    }
    assert_eq!(kernel.closed, vec![3]);
}

#[test]
fn register_read_multiple_and_close_unregister() {
    const TASK_LEN: usize = 3;
    const ENTRIES: u32 = 1024;
    const FILES_TO_REGISTER: u32 = 64;

    let mut kernel = Kernel::new(FILES_TO_REGISTER as usize);
    let mut driver: Driver<'_, Op> = Driver::with(ENTRIES, FILES_TO_REGISTER, codes());

    let update = driver.register_fd(3, 1);
    kernel.told(update);
    let fixed_fd = driver.registered_fd(1, update, Ok(())).unwrap();

    let mut ops = [
        read_at(FdOrFixed::Fixed(fixed_fd), 1024),
        read_at(FdOrFixed::Fixed(fixed_fd), 1024),
        read_at(FdOrFixed::Fixed(fixed_fd), 1024),
    ];
    // Close operation will replace Some value to None
    let mut file_to_close = Op::CloseFile(Some(File { raw_fd: 3 }));

    for (i, read) in ops.iter_mut().enumerate() {
        let op = Operation::new(read, i);
        driver.try_push(op).unwrap_or_else(|_| panic!("queue is full"));
    }

    let mut entries: Vec<Entry> = Vec::new();
    while entries.len() < TASK_LEN {
        kernel.submit(&mut driver, Some(Duration::from_millis(10)), &mut entries).unwrap();
    }
    for e in entries {
        e.into_result().unwrap();
    }

    // Close and unregister file using async interface
    let close_op = Operation::new(&mut file_to_close, 7);

    driver.try_push(close_op).unwrap_or_else(|_| panic!("queue is full"));

    let update = driver.unregister_fd(fixed_fd);
    kernel.told(update);
    driver.unregistered_fd(update, Ok(())).unwrap();

    // one entry for close operation
    let mut entries: Vec<Entry> = Vec::new();

    kernel.submit(&mut driver, Some(Duration::from_millis(10)), &mut entries).unwrap();
    kernel.submit(&mut driver, Some(Duration::from_millis(10)), &mut entries).unwrap();
    assert_eq!(entries.len(), 1);
    for e in entries {
        e.into_result().unwrap();
    }
    assert_eq!(kernel.files[1], -1);
    assert!(matches!(file_to_close, Op::CloseFile(None)));
}

#[test]
fn iour_full_queue_returns_the_operation_untouched() {
    let mut driver: Driver<'_, Op> = Driver::with(1, 0, codes());
    let mut first = Op::CloseFile(Some(File { raw_fd: 5 }));
    let mut second = Op::CloseFile(Some(File { raw_fd: 6 }));
    assert_eq!(driver.capacity_left(), 1);
    assert!(driver.try_push(Operation::new(&mut first, 1)).is_ok());
    assert_eq!(driver.capacity_left(), 0);
    match driver.try_push(Operation::new(&mut second, 2)) {
        Ok(()) => panic!("the queue is full"),
        Err(op) => {
            assert_eq!(op.user_data(), 2);
            assert!(matches!(op.op, Op::CloseFile(Some(_))));
        }
    }
    assert_eq!(driver.try_cancel(1), Err(()));
    let requests: Vec<SqEntry> = driver.requests().iter().copied().collect();
    assert_eq!(requests, vec![SqEntry { op: SqOp::Close { raw_fd: 5 }, user_data: 1 }]);
}

#[test]
fn iour_push_queue_keeps_what_does_not_fit() {
    let mut driver: Driver<'_, Op> = Driver::with(2, 0, codes());
    let mut ops = [Op::CloseFd(Fd { raw_fd: 10 }), Op::CloseFd(Fd { raw_fd: 11 }), Op::CloseFd(Fd { raw_fd: 12 })];
    let mut queue: VecDeque<OpObject<'_, Op>> = VecDeque::new();
    for (i, op) in ops.iter_mut().enumerate() {
        queue.push_back(OpObject::new(op, 100 + i));
    }
    driver.push_queue(&mut queue);
    assert_eq!(queue.len(), 1);
    assert_eq!(queue[0].user_data(), 102);
    let requests: Vec<SqEntry> = driver.requests().iter().copied().collect();
    assert_eq!(requests[0], SqEntry { op: SqOp::Close { raw_fd: 10 }, user_data: 100 });
    assert_eq!(requests[1], SqEntry { op: SqOp::Close { raw_fd: 11 }, user_data: 101 });
    driver.requests_taken(1);
    assert_eq!(driver.requests().len(), 1);
    assert_eq!(driver.requests()[0].user_data, 101);
}

#[test]
fn iour_submit_modes() {
    let mut driver: Driver<'_, Op> = Driver::new(codes());
    assert_eq!(driver.submit(None), SubmitMode::Wait);
    assert_eq!(driver.submit(Some(Duration::zero())), SubmitMode::NoWait);
    assert_eq!(
        driver.submit(Some(Duration::from_millis(2_500))),
        SubmitMode::WaitFor { sec: 2, nsec: 500_000_000 }
    );
}

#[test]
fn iour_submit_results() {
    let driver: Driver<'_, Op> = Driver::new(codes());
    assert_eq!(driver.submit_result(Ok(3)), Ok(()));
    assert_eq!(driver.submit_result(Err(libc::ETIME)), Ok(()));
    assert_eq!(driver.submit_result(Err(libc::EBUSY)), Ok(()));
    assert_eq!(driver.submit_result(Err(libc::EAGAIN)), Ok(()));
    assert_eq!(driver.submit_result(Err(libc::EINVAL)), Err(IoError::Os(libc::EINVAL)));
}

#[test]
fn iour_completions() {
    let mut driver: Driver<'_, Op> = Driver::with(8, 2, codes());
    assert_eq!(driver.register_fd(9, 0), FileUpdate::Queued);
    assert_eq!(driver.register_fd(10, 1), FileUpdate::Queued);
    assert_eq!(driver.requests().len(), 1);
    assert_eq!(driver.files_to_update(), &vec![9, 10]);
    let _ = driver.submit(None);
    // an update is under way: the next one is made at once
    assert_eq!(driver.register_fd(11, 0), FileUpdate::Sync { offset: 0, fd: 11 });
    let mut entries: Vec<Entry> = Vec::new();
    let cqes = vec![
        Cqe { user_data: 1, result: 17 },
        Cqe { user_data: 2, result: -libc::ETIME },
        Cqe { user_data: 3, result: -libc::ENOENT },
        Cqe { user_data: u64::MAX, result: 2 },
        Cqe { user_data: 4, result: -libc::EALREADY },
        Cqe { user_data: 5, result: -libc::ECONNREFUSED },
    ];
    driver.complete_entries(&cqes, &mut entries);
    let got: Vec<(usize, Result<usize, IoError>)> =
        entries.iter().map(|e| (e.user_data(), e.into_result())).collect();
    assert_eq!(
        got,
        vec![(1, Ok(17)), (2, Ok(0)), (5, Err(IoError::Os(libc::ECONNREFUSED)))]
    );
    // the update is over
    assert_eq!(driver.files_to_update(), &vec![SKIP_FILE, SKIP_FILE]);
    assert_eq!(driver.register_fd(12, 0), FileUpdate::Queued);
}

#[test]
fn iour_last_registration_wins_on_a_full_queue() {
    let mut kernel = Kernel::new(2);
    let mut driver: Driver<'_, Op> = Driver::with(1, 2, codes());
    let update = driver.register_fd(20, 0);
    assert_eq!(update, FileUpdate::Queued);
    kernel.told(update);
    driver.registered_fd(0, update, Ok(())).unwrap();
    let update = driver.register_fd(21, 0);
    assert_eq!(update, FileUpdate::Sync { offset: 0, fd: 21 });
    kernel.told(update);
    assert_eq!(driver.registered_fd(0, update, Ok(())), Ok(FixedFd { offset: 0 }));
    let mut entries: Vec<Entry> = Vec::new();
    kernel.submit(&mut driver, None, &mut entries).unwrap();
    assert_eq!(kernel.files, vec![21, -1]);
    assert!(entries.is_empty());
}

#[test]
fn iour_refused_registration_leaves_the_queued_update_alone() {
    let mut kernel = Kernel::new(2);
    let mut driver: Driver<'_, Op> = Driver::with(1, 2, codes());
    let update = driver.register_fd(20, 0);
    driver.registered_fd(0, update, Ok(())).unwrap();
    let update = driver.register_fd(21, 0);
    assert_eq!(update, FileUpdate::Sync { offset: 0, fd: 21 });
    let refused: Result<(), IoError> = Err(IoError::Os(libc::EBADF));
    assert_eq!(driver.registered_fd(0, update, refused), Err(IoError::Os(libc::EBADF)));
    let update = driver.unregister_fd(FixedFd { offset: 0 });
    assert_eq!(update, FileUpdate::Sync { offset: 0, fd: -1 });
    assert_eq!(driver.unregistered_fd(update, refused), Err(IoError::Os(libc::EBADF)));
    assert_eq!(driver.files_to_update(), &vec![20, SKIP_FILE]);
    let mut entries: Vec<Entry> = Vec::new();
    kernel.submit(&mut driver, None, &mut entries).unwrap();
    assert_eq!(kernel.files, vec![20, -1]);
}

#[test]
fn iour_pushed_timer_is_reported_when_it_is_over() {
    let mut op = Timeout::new(Duration::from_millis(1));
    let mut driver: Driver<'_, Timeout> = Driver::new(codes());
    driver.try_cancel(7).unwrap();
    assert!(driver.try_push(Operation::new(&mut op, 7)).is_ok());
    let timer = SqOp::Timeout { sec: 0, nsec: 1_000_000 };
    assert_eq!(driver.requests()[1], SqEntry { op: timer, user_data: 7 });
    let _ = driver.submit(None);
    driver.requests_taken(0);
    // there was nothing to cancel yet
    let cqes = vec![
        Cqe { user_data: 7, result: -libc::ENOENT },
        Cqe { user_data: 7, result: -libc::ETIME },
    ];
    let mut entries: Vec<Entry> = Vec::new();
    driver.complete_entries(&cqes, &mut entries);
    assert_eq!(entries.len(), 1);
    assert_eq!((entries[0].user_data(), entries[0].into_result()), (7, Ok(0)));
}

#[test]
fn iour_constants_match_the_ring() {
    assert_eq!(SKIP_FILE, io_uring::register::SKIP_FILE);
}
