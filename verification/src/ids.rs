use vstd::prelude::*;

verus! {

/// A runner's identity in a market: its selection id and, on handicap
/// markets, its handicap. The handicap is held as an order-preserving integer
/// key of the decimal the stream sends (see `crate::price_size`).
#[derive(Clone, Copy, Debug, PartialEq, Eq, Structural)]
pub struct SelectionID(pub u32, pub Option<u32>);

impl SelectionID {
    pub fn from(v: (u32, Option<u32>)) -> (r: Self)
        ensures
            r.0 == v.0,
            r.1 == v.1,
    {
        SelectionID(v.0, v.1)
    }

    pub fn id(&self) -> (r: u32)
        ensures
            r == self.0,
    {
        self.0
    }

    pub fn handicap(&self) -> (r: Option<u32>)
        ensures
            r == self.1,
    {
        self.1
    }

    pub fn default() -> (r: Self)
        ensures
            r.0 == 0,
            r.1 is None,
    {
        SelectionID(0, None)
    }

    /// Whether two identities are the same.
    pub fn same(&self, other: &SelectionID) -> (r: bool)
        ensures
            r == (*self == *other),
    {
        self.0 == other.0 && match (self.1, other.1) {
            (None, None) => true,
            (Some(a), Some(b)) => a == b,
            _ => false,
        }
    }
}

} // verus!
