use crate::error::StackError;
use vstd::prelude::*;

verus! {

/// Addition that reports overflow as an error instead of panicking or wrapping.
pub trait TryAdd<T>: Sized {
    /// Attempts `self + rhs`, returning `Err` if it overflows.
    fn try_add(self, rhs: T) -> Result<Self, StackError>;
}

impl TryAdd<usize> for usize {
    fn try_add(self, rhs: usize) -> (r: Result<usize, StackError>)
        ensures
            self + rhs <= usize::MAX ==> r == Ok::<usize, StackError>((self + rhs) as usize),
            self + rhs > usize::MAX ==> r == Err::<usize, _>(StackError::Overflowed),
    {
        match self.checked_add(rhs) {
            Some(v) => Ok(v),
            None => Err(StackError::Overflowed),
        }
    }
}

impl TryAdd<u16> for u16 {
    fn try_add(self, rhs: u16) -> (r: Result<u16, StackError>)
        ensures
            self + rhs <= u16::MAX ==> r == Ok::<u16, StackError>((self + rhs) as u16),
            self + rhs > u16::MAX ==> r == Err::<u16, _>(StackError::Overflowed),
    {
        match self.checked_add(rhs) {
            Some(v) => Ok(v),
            None => Err(StackError::Overflowed),
        }
    }
}

/// Instants and durations are milliseconds on the caller's clock.
impl TryAdd<u64> for u64 {
    fn try_add(self, rhs: u64) -> (r: Result<u64, StackError>)
        ensures
            self + rhs <= u64::MAX ==> r == Ok::<u64, StackError>((self + rhs) as u64),
            self + rhs > u64::MAX ==> r == Err::<u64, _>(StackError::Overflowed),
    {
        match self.checked_add(rhs) {
            Some(v) => Ok(v),
            None => Err(StackError::Overflowed),
        }
    }
}

/// Indexing that reports an index out of bounds as an error instead of panicking.
pub trait TryGet<T> {
    /// The element at `index`, or `Err` if out of bounds.
    fn try_get(&self, index: usize) -> Result<&T, StackError>;

    /// The elements from `start` up to `end`, or `Err` if the range is out of bounds.
    fn try_get_range(&self, start: usize, end: usize) -> Result<&[T], StackError>;
}

impl<T> TryGet<T> for [T] {
    fn try_get(&self, index: usize) -> (r: Result<&T, StackError>)
        ensures
            index < self@.len() ==> r == Ok::<&T, StackError>(&self@[index as int]),
            index >= self@.len() ==> r == Err::<&T, _>(
                StackError::IndexOutOfRange { index, len: self@.len() as usize },
            ),
    {
        if index < self.len() {
            Ok(&self[index])
        } else {
            Err(StackError::IndexOutOfRange { index, len: self.len() })
        }
    }

    fn try_get_range(&self, start: usize, end: usize) -> (r: Result<&[T], StackError>)
        ensures
            start <= end <= self@.len() ==> (r matches Ok(s) && s@ == self@.subrange(
                start as int,
                end as int,
            )),
            !(start <= end <= self@.len()) ==> r == Err::<&[T], _>(
                StackError::RangeOutOfRange { start, end, len: self@.len() as usize },
            ),
    {
        if start <= end && end <= self.len() {
            Ok(&self[start..end])
        } else {
            Err(StackError::RangeOutOfRange { start, end, len: self.len() })
        }
    }
}

/// Element updates that report an index out of bounds as an error instead of panicking.
pub trait TryGetMut<T> {
    /// Sets the element at `index` to `value`, or returns `Err` (changing nothing) if out of
    /// bounds.
    fn try_set(&mut self, index: usize, value: T) -> Result<(), StackError>;
}

impl<T> TryGetMut<T> for [T] {
    fn try_set(&mut self, index: usize, value: T) -> (r: Result<(), StackError>)
        ensures
            index < old(self)@.len() ==> r is Ok && final(self)@ == old(self)@.update(index as int, value),
            index >= old(self)@.len() ==> r == Err::<(), _>(
                StackError::IndexOutOfRange { index, len: old(self)@.len() as usize },
            ) && final(self)@
                == old(self)@,
    {
        if index < self.len() {
            self[index] = value;
            Ok(())
        } else {
            Err(StackError::IndexOutOfRange { index, len: self.len() })
        }
    }
}

} // verus!
