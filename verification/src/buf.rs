//! Buffers that operations read from and write to.
use vstd::prelude::*;

use crate::error::IoResult;

verus! {

/// The result of an operation together with the buffer that it gives back.
pub type BufResult<R, B> = (IoResult<R>, B);

/// A buffer that an operation takes bytes from.
pub trait IoBuf: Sized {
    /// How many bytes the buffer holds.
    open spec fn filled(&self) -> nat {
        arbitrary()
    }

    /// How many bytes the buffer holds.
    fn buf_len(&self) -> (len: usize)
        ensures
            len == self.filled(),
    ;
}

/// A buffer that an operation puts bytes into.
pub trait IoBufMut: IoBuf {
    /// How many bytes there is room for.
    open spec fn room(&self) -> nat {
        arbitrary()
    }

    /// How many bytes there is room for.
    fn buf_capacity(&self) -> (len: usize)
        ensures
            len == self.room(),
    ;

    /// Takes note that the first `len` bytes were filled.
    fn set_buf_init(&mut self, len: usize)
        requires
            len <= old(self).room(),
        ensures
            final(self).filled() == len,
            final(self).room() == old(self).room(),
    ;
}

/// A number of buffers that an operation takes bytes from or puts bytes into, one after the other.
pub trait AsIoSlices: Sized {
    /// How many buffers there are.
    open spec fn slices(&self) -> nat {
        arbitrary()
    }

    /// How many buffers there are.
    fn io_slices(&self) -> (count: usize)
        ensures
            count == self.slices(),
    ;
}

/// A value that gives back what it was made from.
pub trait IntoInner: Sized {
    /// What it was made from.
    type Inner;

    /// What it gives back.
    spec fn inner(self) -> Self::Inner;

    /// Gives back what it was made from.
    fn into_inner(self) -> (inner: Self::Inner)
        ensures
            inner == self.inner(),
    ;
}

/// A buffer to be read from as the only one of its operation.
#[derive(Debug)]
pub struct BufWrapper<T> {
    /// The buffer.
    pub buffer: T,
}

impl<T> BufWrapper<T> {
    /// Wraps a buffer.
    pub fn new(buffer: T) -> (wrapper: Self)
        ensures
            wrapper.buffer == buffer,
    {
        BufWrapper { buffer }
    }
}

impl<T> AsIoSlices for BufWrapper<T> {
    open spec fn slices(&self) -> nat {
        1
    }

    fn io_slices(&self) -> (count: usize) {
        1
    }
}

impl<T> IntoInner for BufWrapper<T> {
    type Inner = T;

    open spec fn inner(self) -> T {
        self.buffer
    }

    fn into_inner(self) -> (inner: T) {
        self.buffer
    }
}

/// A buffer to be filled as the only one of its operation.
#[derive(Debug)]
pub struct BufWrapperMut<T> {
    /// The buffer.
    pub buffer: T,
}

impl<T> BufWrapperMut<T> {
    /// Wraps a buffer.
    pub fn new(buffer: T) -> (wrapper: Self)
        ensures
            wrapper.buffer == buffer,
    {
        BufWrapperMut { buffer }
    }
}

impl<T> AsIoSlices for BufWrapperMut<T> {
    open spec fn slices(&self) -> nat {
        1
    }

    fn io_slices(&self) -> (count: usize) {
        1
    }
}

impl<T> IntoInner for BufWrapperMut<T> {
    type Inner = T;

    open spec fn inner(self) -> T {
        self.buffer
    }

    fn into_inner(self) -> (inner: T) {
        self.buffer
    }
}

impl<T: IoBufMut> BufWrapperMut<T> {
    /// Takes note that the first `init` bytes were filled.
    pub fn set_init(&mut self, init: usize)
        requires
            init <= old(self).buffer.room(),
        ensures
            final(self).buffer.filled() == init,
            final(self).buffer.room() == old(self).buffer.room(),
            exists|buffer: &mut T|
                {
                    &&& *buffer == old(self).buffer
                    &&& *final(buffer) == final(self).buffer
                    &&& #[trigger] call_ensures(T::set_buf_init, (buffer, init), ())
                },
    {
        self.buffer.set_buf_init(init);
    }
}

} // verus!
