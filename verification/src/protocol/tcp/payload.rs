use crate::error::StackError;
use vstd::prelude::*;

verus! {

/// A payload of bytes guaranteed to have a length in `1..=u16::MAX`.
#[derive(Debug, PartialEq, Eq)]
pub struct TcpPayload {
    data: Vec<u8>,
}

impl View for TcpPayload {
    type V = Seq<u8>;

    closed spec fn view(&self) -> Seq<u8> {
        self.data@
    }
}

impl TcpPayload {
    #[verifier::type_invariant]
    spec fn length_in_range(self) -> bool {
        0 < self.data@.len() <= 0xFFFF
    }

    /// Returns the number of bytes in the payload.
    pub fn len(&self) -> (r: u16)
        ensures
            r == self@.len(),
            r > 0,
    {
        proof {
            use_type_invariant(self);
        }
        self.data.len() as u16
    }

    /// Returns a byte slice of the payload's data.
    pub fn as_bytes(&self) -> (r: &[u8])
        ensures
            r@ == self@,
    {
        self.data.as_slice()
    }

    /// Creates a payload holding `bytes`, returning `Ok(None)` if `bytes` is empty.
    ///
    /// # Errors
    ///
    /// Returns `Err` if `bytes` is longer than `u16::MAX`.
    pub fn try_from_bytes(bytes: Vec<u8>) -> (r: Result<Option<TcpPayload>, StackError>)
        ensures
            (r is Err) == (bytes@.len() > 0xFFFF),
            (r matches Err(e) ==> e == StackError::PayloadTooLong),
            (r matches Ok(None::<TcpPayload>) ==> bytes@.len() == 0),
            (r matches Ok(Some(p)) ==> p@ == bytes@ && 0 < p@.len() <= 0xFFFF),
            (r is Ok && bytes@.len() > 0 ==> r matches Ok(Some(_))),
    {
        if bytes.len() == 0 {
            Ok(None)
        } else if bytes.len() > 0xFFFF {
            Err(StackError::PayloadTooLong)
        } else {
            Ok(Some(TcpPayload { data: bytes }))
        }
    }
}

impl Clone for TcpPayload {
    fn clone(&self) -> (r: Self)
        ensures
            r@ == self@,
    {
        proof {
            use_type_invariant(self);
        }
        TcpPayload { data: self.data.clone() }
    }
}

/// The bytes carried by an optional payload, empty for none.
pub open spec fn payload_bytes(p: Option<TcpPayload>) -> Seq<u8> {
    match p {
        None => Seq::empty(),
        Some(p) => p@,
    }
}

/// The length of an optional payload, or zero for none.
pub fn len_or_default(p: &Option<TcpPayload>) -> (r: u16)
    ensures
        r == payload_bytes(*p).len(),
{
    match p {
        None => 0,
        Some(p) => p.len(),
    }
}

} // verus!
