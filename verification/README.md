# completeio

Completion-based I/O drivers for rings, event queues, readiness polls and completion ports, and the bookkeeping of a
thread-per-core runtime on top of them. The library decides; it makes no system call. Its behaviour is stated in
contracts and proved with Verus.

* `src/driver/` - the drivers. Each has a submission queue of fixed size (`CompleteIo`), says what to ask the kernel
  for, and takes the answer. `iour` follows a submission ring, `kqueue` a kernel event queue, `mio` a readiness poll and
  `iocp` a completion port. `time` holds the timers that all but the ring need.
* `src/task/` - the operations under way, their results, and what a runtime does next.
* `src/event/`, `src/signal/`, `src/attacher.rs`, `src/op.rs`, `src/buf.rs` - what tasks use on top of the drivers.
* `app/` - the system calls: the ring, the event queue, the poll and the completion port, a thread-local runtime,
  pipes and signals.
* `tests/` - the library against scripted operations and a small stand-in for the kernel.

A driver is used in two steps. `submit` attempts or hands out what is queued and says what the kernel is to be asked
for; the answer goes to the function that completes the submission, which reports an `Entry` for each operation that
has completed. What is output is not held back: a driver waits only while nothing has completed. A cancelled operation
is output too, by the next submission or as the kernel reports it. User data has to be unique among the operations of a
driver.

Operations are of the caller's own types. Where a driver lets one of them act, the contract says which call was made on
which operation, what came of it, and that the operation is left as that call left it.
