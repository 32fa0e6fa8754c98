use vstd::prelude::*;

use crate::util::text::{decimal_digits, u32_to_string};

verus! {

/// The identifier of a client account.
#[derive(Clone, Copy, Debug, PartialEq, Eq, Hash, Structural)]
pub struct ClientId(pub u16);

impl ClientId {
    pub fn from_u16(value: u16) -> (r: Self)
        ensures
            r.0 == value,
    {
        ClientId(value)
    }

    /// The identifier in decimal notation.
    pub fn to_string(&self) -> (r: String)
        ensures
            r@ == decimal_digits(self.0 as nat),
    {
        u32_to_string(self.0 as u32)
    }
}

/// The identifier of a transaction.
#[derive(Clone, Copy, Debug, PartialEq, Eq, Hash, Structural)]
pub struct TransactionId(pub u32);

impl TransactionId {
    pub fn from_u32(value: u32) -> (r: Self)
        ensures
            r.0 == value,
    {
        TransactionId(value)
    }

    /// The identifier in decimal notation.
    pub fn to_string(&self) -> (r: String)
        ensures
            r@ == decimal_digits(self.0 as nat),
    {
        u32_to_string(self.0)
    }
}

} // verus!
