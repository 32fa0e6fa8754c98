use vstd::prelude::*;

use super::id::ClientId;

verus! {

/// The balances of one client; amounts are fixed-point with four decimal places.
#[derive(Clone, Copy, Debug)]
pub struct Account {
    pub client: ClientId,
    pub available: i64,
    pub held: i64,
    pub locked: bool,
}

impl Account {
    /// Available and held funds together.
    pub open spec fn spec_total(self) -> int {
        self.available + self.held
    }

    /// Available and held funds together.
    pub fn total(&self) -> (r: i64)
        requires
            i64::MIN <= self.spec_total() <= i64::MAX,
        ensures
            r == self.spec_total(),
    {
        self.available + self.held
    }
}

} // verus!
