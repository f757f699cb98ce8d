//! The user data of a submitted operation, with the type of the operation.
use vstd::prelude::*;

use std::marker::PhantomData;

verus! {

/// A typed wrapper for the key of an operation submitted into a runtime.
#[derive(Debug)]
pub struct Key<T> {
    user_data: usize,
    _p: PhantomData<T>,
}

impl<T> Key<T> {
    /// The user data.
    pub closed spec fn data(&self) -> usize {
        self.user_data
    }

    /// Creates a key of an operation of type `T`.
    pub fn new(user_data: usize) -> (key: Self)
        ensures
            key.data() == user_data,
    {
        Key { user_data, _p: PhantomData }
    }

    /// The user data.
    pub fn user_data(&self) -> (user_data: usize)
        ensures
            user_data == self.data(),
    {
        self.user_data
    }
}

impl Key<()> {
    /// Creates a key that says nothing about the type of the operation.
    pub fn new_dummy(user_data: usize) -> (key: Self)
        ensures
            key.data() == user_data,
    {
        Key::new(user_data)
    }
}

/// A key says the user data that it was made with.
pub proof fn law_key_says_its_user_data<T>(user_data: usize, key: Key<T>, dummy: Key<()>, back: usize)
    requires
        call_ensures(Key::<T>::new, (user_data,), key),
        call_ensures(Key::<()>::new_dummy, (user_data,), dummy),
        call_ensures(Key::<T>::user_data, (&key,), back),
    ensures
        back == user_data,
        key.data() == user_data,
        forall|again: usize| #[trigger] call_ensures(Key::<()>::user_data, (&dummy,), again) ==> again == user_data,
{
}

} // verus!
