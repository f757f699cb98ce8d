//! What is common to the operations of all drivers: how a result updates its buffer.
//!
//! The operation itself doesn't perform anything. It has to be passed to a driver, and the driver polled.
use vstd::prelude::*;

use crate::addr::{AddrStorage, SockAddr};
use crate::buf::{AsIoSlices, BufResult, BufWrapper, BufWrapperMut, IntoInner, IoBuf, IoBufMut};
use crate::error::IoResult;

verus! {

/// Helper trait to update buffer length after kernel updated the buffer.
pub trait UpdateBufferLen: Sized {
    /// What was transferred fits into the buffer.
    spec fn fits(&self) -> bool;

    /// The buffer holds what was transferred, if anything was, and the result is the same.
    spec fn updates_to(&self, updated: &Self) -> bool;

    /// Updates the length of the wrapped buffer.
    fn update_buffer_len(self) -> (updated: Self)
        requires
            self.fits(),
        ensures
            self.updates_to(&updated),
    ;
}

/// What a transfer of `n` bytes makes of a buffer.
pub open spec fn filled_to<T: IoBufMut>(before: T, after: T, n: usize) -> bool {
    after.filled() == n && after.room() == before.room()
}

impl<T: IoBufMut> UpdateBufferLen for (IoResult<usize>, T) {
    open spec fn fits(&self) -> bool {
        self.0 matches Ok(n) ==> n <= self.1.room()
    }

    open spec fn updates_to(&self, updated: &Self) -> bool {
        &&& updated.0 == self.0
        &&& match self.0 {
            Ok(n) => filled_to(self.1, updated.1, n),
            Err(_) => updated.1 == self.1,
        }
    }

    /// The buffer is the given one after one call that sets its length.
    fn update_buffer_len(self) -> (updated: Self)
        ensures
            self.0 matches Ok(n) ==> exists|buffer: &mut T|
                {
                    &&& *buffer == self.1
                    &&& *final(buffer) == updated.1
                    &&& #[trigger] call_ensures(T::set_buf_init, (buffer, n), ())
                },
    {
        let (res, mut buffer) = self;
        if let Ok(init) = &res {
            buffer.set_buf_init(*init);
        }
        (res, buffer)
    }
}

impl<T: IoBufMut, O> UpdateBufferLen for (IoResult<(usize, O)>, T) {
    open spec fn fits(&self) -> bool {
        self.0 matches Ok((n, _)) ==> n <= self.1.room()
    }

    open spec fn updates_to(&self, updated: &Self) -> bool {
        &&& updated.0 == self.0
        &&& match self.0 {
            Ok((n, _)) => filled_to(self.1, updated.1, n),
            Err(_) => updated.1 == self.1,
        }
    }

    /// The buffer is the given one after one call that sets its length.
    fn update_buffer_len(self) -> (updated: Self)
        ensures
            self.0 matches Ok((n, _)) ==> exists|buffer: &mut T|
                {
                    &&& *buffer == self.1
                    &&& *final(buffer) == updated.1
                    &&& #[trigger] call_ensures(T::set_buf_init, (buffer, n), ())
                },
    {
        let (res, mut buffer) = self;
        if let Ok((init, _)) = &res {
            buffer.set_buf_init(*init);
        }
        (res, buffer)
    }
}

impl<T: IoBufMut> IoBuf for BufWrapperMut<T> {
    open spec fn filled(&self) -> nat {
        self.buffer.filled()
    }

    fn buf_len(&self) -> (len: usize) {
        self.buffer.buf_len()
    }
}

impl<T: IoBufMut> IoBufMut for BufWrapperMut<T> {
    open spec fn room(&self) -> nat {
        self.buffer.room()
    }

    fn buf_capacity(&self) -> (len: usize) {
        self.buffer.buf_capacity()
    }

    fn set_buf_init(&mut self, len: usize)
        ensures
            exists|buffer: &mut T|
                {
                    &&& *buffer == old(self).buffer
                    &&& *final(buffer) == final(self).buffer
                    &&& #[trigger] call_ensures(T::set_buf_init, (buffer, len), ())
                },
    {
        self.set_init(len);
    }
}

/// A received result with the address that the storage holds, where something was received.
pub open spec fn with_addr(result: IoResult<usize>, storage: AddrStorage, len: u32) -> IoResult<
    (usize, SockAddr),
> {
    match result {
        Ok(n) => Ok((n, SockAddr { storage, len })),
        Err(error) => Err(error),
    }
}

/// Puts the address that a message came from next to the number of bytes that were received.
pub fn map_addr<T>(received: BufResult<usize, (T, AddrStorage, u32)>) -> (mapped: BufResult<
    (usize, SockAddr),
    T,
>)
    ensures
        mapped.0 == with_addr(received.0, received.1.1, received.1.2),
        mapped.1 == received.1.0,
{
    let (res, (buffer, addr_buffer, addr_size)) = received;
    let res: IoResult<(usize, SockAddr)> = match res {
        Ok(res) => {
            let addr = SockAddr::new(addr_buffer, addr_size);
            Ok((res, addr))
        },
        Err(error) => Err(error),
    };
    (res, buffer)
}

/// A transfer that succeeded leaves the buffer filled with as many bytes as were transferred, and with the room that it
/// had; one that failed leaves the buffer as it was. The result is handed on.
pub proof fn law_buffer_holds_what_was_transferred<T: IoBufMut, O>(
    result: IoResult<usize>,
    noted: IoResult<(usize, O)>,
    buffer: T,
    updated: (IoResult<usize>, T),
    updated_noted: (IoResult<(usize, O)>, T),
)
    requires
        call_ensures(<(IoResult<usize>, T) as UpdateBufferLen>::update_buffer_len, ((result, buffer),), updated),
        call_ensures(
            <(IoResult<(usize, O)>, T) as UpdateBufferLen>::update_buffer_len,
            ((noted, buffer),),
            updated_noted,
        ),
    ensures
        updated.0 == result,
        result matches Ok(n) ==> updated.1.filled() == n && updated.1.room() == buffer.room(),
        result is Err ==> updated.1 == buffer,
        updated_noted.0 == noted,
        noted matches Ok(n) ==> updated_noted.1.filled() == n.0 && updated_noted.1.room() == buffer.room(),
        noted is Err ==> updated_noted.1 == buffer,
{
}

/// What was received is handed on with the address that it came from, as long as the system said, and with the buffer.
/// An error is handed on without an address.
pub proof fn law_received_address<T>(
    result: IoResult<usize>,
    buffer: T,
    storage: AddrStorage,
    len: u32,
    mapped: BufResult<(usize, SockAddr), T>,
)
    requires
        call_ensures(map_addr::<T>, ((result, (buffer, storage, len)),), mapped),
    ensures
        mapped.1 == buffer,
        mapped.0 is Ok <==> result is Ok,
        mapped.0 is Ok ==> mapped.0->Ok_0.0 == result->Ok_0 && mapped.0->Ok_0.1.storage == storage
            && mapped.0->Ok_0.1.len == len,
        mapped.0 is Err ==> mapped.0->Err_0 == result->Err_0,
{
}

/// A wrapped buffer is as full, and has as much room, as the buffer itself; filling the one fills the other.
pub proof fn law_wrapped_buffer<T: IoBufMut>(
    buffer: T,
    wrapper: BufWrapperMut<T>,
    filled: usize,
    room: usize,
    len: usize,
)
    requires
        call_ensures(BufWrapperMut::<T>::new, (buffer,), wrapper),
        call_ensures(<BufWrapperMut<T> as IoBuf>::buf_len, (&wrapper,), filled),
        call_ensures(<BufWrapperMut<T> as IoBufMut>::buf_capacity, (&wrapper,), room),
    ensures
        filled == buffer.filled(),
        room == buffer.room(),
        forall|w: &mut BufWrapperMut<T>|
            *w == wrapper && #[trigger] call_ensures(<BufWrapperMut<T> as IoBufMut>::set_buf_init, (w, len), ())
                ==> final(w).buffer.filled() == len && final(w).buffer.room() == buffer.room(),
        forall|w: &mut BufWrapperMut<T>|
            *w == wrapper && #[trigger] call_ensures(BufWrapperMut::<T>::set_init, (w, len), ()) ==> final(
                w).buffer.filled() == len && final(w).buffer.room() == buffer.room(),
        forall|count: usize| #[trigger]
            call_ensures(<BufWrapperMut<T> as AsIoSlices>::io_slices, (&wrapper,), count) ==> count == 1,
        forall|inner: T| #[trigger]
            call_ensures(<BufWrapperMut<T> as IntoInner>::into_inner, (wrapper,), inner) ==> inner == buffer,
        forall|reader: BufWrapper<T>, count: usize| #[trigger]
            call_ensures(<BufWrapper<T> as AsIoSlices>::io_slices, (&reader,), count) ==> count == 1,
        forall|reader: BufWrapper<T>, inner: T| #[trigger]
            call_ensures(BufWrapper::<T>::new, (buffer,), reader) && #[trigger] call_ensures(
                <BufWrapper<T> as IntoInner>::into_inner,
                (reader,),
                inner,
            ) ==> inner == buffer,
{
}

} // verus!
