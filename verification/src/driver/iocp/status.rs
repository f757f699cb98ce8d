//! Error codes and statuses of the system, and what they mean for an operation.
use vstd::prelude::*;

use crate::driver::iocp::Overlapped;
use crate::error::{IoError, IoResult};
use crate::poll::Poll;

verus! {

/// The end of the file was reached.
pub const ERROR_HANDLE_EOF: u32 = 38;

/// The pipe is being closed.
pub const ERROR_NO_DATA: u32 = 232;

/// A client has connected to the pipe already.
pub const ERROR_PIPE_CONNECTED: u32 = 535;

/// The operation is not signalled yet.
pub const ERROR_IO_INCOMPLETE: u32 = 996;

/// The operation is under way.
pub const ERROR_IO_PENDING: u32 = 997;

/// The handle is no socket.
pub const WSAENOTSOCK: i32 = 10038;

/// The operation has succeeded.
pub const STATUS_SUCCESS: i32 = 0;

/// The operation is under way.
pub const STATUS_PENDING: i32 = 259;

/// The facility of statuses that stand for error codes, where it belongs in a status.
pub const FACILITY_NTWIN32_BITS: i32 = 0x7_0000;

/// The severity of statuses that are errors.
pub const ERROR_SEVERITY_ERROR: i32 = -0x4000_0000;

/// What a failed call with the given error code means. Some codes only say that there is nothing more.
pub open spec fn failed_call(error: u32, transferred: u32) -> Poll<IoResult<usize>> {
    if error == ERROR_IO_PENDING {
        Poll::Pending
    } else if error == ERROR_IO_INCOMPLETE || error == ERROR_HANDLE_EOF || error
        == ERROR_PIPE_CONNECTED || error == ERROR_NO_DATA {
        Poll::Ready(Ok(transferred as usize))
    } else {
        Poll::Ready(Err(IoError::Os(error as i32)))
    }
}

/// What a failed call means: `error` is the last error of the thread.
pub fn winapi_result(error: u32, transferred: u32) -> (r: Poll<IoResult<usize>>)
    requires
        error != 0,
    ensures
        r == failed_call(error, transferred),
{
    if error == ERROR_IO_PENDING {
        Poll::Pending
    } else if error == ERROR_IO_INCOMPLETE || error == ERROR_HANDLE_EOF || error
        == ERROR_PIPE_CONNECTED || error == ERROR_NO_DATA {
        Poll::Ready(Ok(transferred as usize))
    } else {
        Poll::Ready(Err(IoError::Os(error as i32)))
    }
}

/// What a call that returns 0 on failure means.
pub fn win32_result(res: i32, error: u32, transferred: u32) -> (r: Poll<IoResult<usize>>)
    requires
        res == 0 ==> error != 0,
    ensures
        r == if res == 0 {
            failed_call(error, transferred)
        } else {
            Poll::Ready(Ok(transferred as usize))
        },
{
    if res == 0 {
        winapi_result(error, transferred)
    } else {
        Poll::Ready(Ok(transferred as usize))
    }
}

/// What a call that returns 0 on failure, and whose result is queried later, means.
///
/// Read, write, send and recv functions may return immediately and indicate that the task is completed. Their result
/// is not taken from the call, however it returns: they are pending, and the result is queried later.
pub fn win32_pending_result(res: i32, error: u32) -> (r: Poll<IoResult<usize>>)
    requires
        res == 0 ==> error != 0,
    ensures
        r == if res == 0 {
            failed_call(error, 0)
        } else {
            Poll::Pending
        },
{
    if res == 0 {
        winapi_result(error, 0)
    } else {
        Poll::Pending
    }
}

/// What a socket call, which returns 0 on success, means.
pub fn winsock_result(res: i32, error: u32, transferred: u32) -> (r: Poll<IoResult<usize>>)
    requires
        res != 0 ==> error != 0,
    ensures
        r == if res != 0 {
            failed_call(error, transferred)
        } else {
            Poll::Pending
        },
{
    if res != 0 {
        winapi_result(error, transferred)
    } else {
        Poll::Pending
    }
}

/// The status that stands for an error code: the low half of the code, marked as an error.
pub open spec fn status_of(error: i32) -> int {
    if error <= 0 {
        error as int
    } else {
        ERROR_SEVERITY_ERROR + FACILITY_NTWIN32_BITS + error % 0x1_0000
    }
}

/// The status that stands for an error code.
pub fn ntstatus_from_win32(x: i32) -> (status: i32)
    ensures
        status == status_of(x),
{
    if x <= 0 {
        x
    } else {
        assert(x > 0i32 ==> ((x & 0xFFFFi32) | 0x7_0000i32) == 0x7_0000i32 + x % 0x1_0000i32)
            by (bit_vector);
        assert(forall|y: i32|
            0i32 <= y < 0x10_0000i32 ==> #[trigger] (y | -0x4000_0000i32) == y - 0x4000_0000i32)
            by (bit_vector);
        (x & 0xFFFF) | FACILITY_NTWIN32_BITS | ERROR_SEVERITY_ERROR
    }
}

/// What preparing a completion to be posted makes of its overlapped structure, and how many bytes it is to report.
pub open spec fn prepared(
    result: IoResult<usize>,
    before: Overlapped,
    after: Overlapped,
    transferred: u32,
) -> bool {
    match result {
        Ok(n) => after == before && transferred == n as int % 0x1_0000_0000,
        Err(error) => {
            let code: i32 = match error {
                IoError::Os(code) => code,
                _ => 0,
            };
            after == (Overlapped { internal: status_of(code) as i32, ..before }) && transferred == 0
        },
    }
}

/// Prepares a completion to be posted to a driver: the status is set if the result is an error, and the number
/// of bytes to post is returned.
pub fn post_driver_raw(result: IoResult<usize>, overlapped: &mut Overlapped) -> (transferred: u32)
    ensures
        prepared(result, *old(overlapped), *final(overlapped), transferred),
{
    match result {
        Ok(n) => (n as u64 % 0x1_0000_0000) as u32,
        Err(error) => {
            let code: i32 = match error.raw_os_error() {
                Some(code) => code,
                None => 0,
            };
            overlapped.internal = ntstatus_from_win32(code);
            0
        },
    }
}

} // verus!
