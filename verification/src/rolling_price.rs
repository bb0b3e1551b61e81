//! Fixed-capacity rolling window of past mid prices, the volatility
//! estimator's input.

use vstd::prelude::*;

verus! {

/// Rolling window of the most recent mid prices (micros). Once `capacity`
/// prices are held, pushing a new one drops the oldest.
#[derive(Debug, Clone)]
pub struct RollingPrice {
    pub deque: Vec<i64>,
    pub capacity: usize,
}

impl RollingPrice {
    /// The window never holds more than `capacity` prices.
    pub open spec fn wf(self) -> bool {
        self.deque@.len() <= self.capacity
    }

    /// A window pre-filled to capacity with the reference price.
    pub fn new(capacity: usize, ipo_price: i64) -> (r: RollingPrice)
        ensures
            r.capacity == capacity,
            r.deque@ == Seq::new(capacity as nat, |i: int| ipo_price),
            r.wf(),
    {
        let mut deque: Vec<i64> = Vec::new();
        let mut k: usize = 0;
        while k < capacity
            invariant
                k <= capacity,
                deque@ == Seq::new(k as nat, |i: int| ipo_price),
            decreases capacity - k,
        {
            deque.push(ipo_price);
            k = k + 1;
            proof {
                assert(deque@ =~= Seq::new(k as nat, |i: int| ipo_price));
            }
        }
        RollingPrice { deque, capacity }
    }

    /// An empty window of the given capacity.
    pub fn with_capacity(capacity: usize) -> (r: RollingPrice)
        ensures
            r.capacity == capacity,
            r.deque@.len() == 0,
            r.wf(),
    {
        RollingPrice { deque: Vec::new(), capacity }
    }

    /// Append a price; when the window is full the oldest price leaves.
    pub fn push(&mut self, price: i64)
        ensures
            final(self).capacity == old(self).capacity,
            final(self).deque@ == if old(self).deque@.len() == old(self).capacity && old(
                self,
            ).capacity > 0 {
                old(self).deque@.drop_first().push(price)
            } else {
                old(self).deque@.push(price)
            },
            old(self).wf() && old(self).capacity > 0 ==> final(self).wf(),
    {
        if self.deque.len() == self.capacity && self.deque.len() > 0 {
            self.deque.remove(0);
            proof {
                assert(self.deque@ =~= old(self).deque@.drop_first());
            }
        }
        self.deque.push(price);
    }

    /// The prices, oldest first.
    pub fn as_slice_for_volatility(&self) -> (r: &Vec<i64>)
        ensures
            r@ == self.deque@,
    {
        &self.deque
    }

    /// Number of prices held.
    pub fn len(&self) -> (r: usize)
        ensures
            r == self.deque@.len(),
    {
        self.deque.len()
    }

    /// Refill the window to capacity with the reference price.
    pub fn clear(&mut self, ipo_price: i64)
        ensures
            final(self).capacity == old(self).capacity,
            final(self).deque@ == Seq::new(old(self).capacity as nat, |i: int| ipo_price),
            final(self).wf(),
    {
        let cap = self.capacity;
        let refilled = RollingPrice::new(cap, ipo_price);
        self.deque = refilled.deque;
    }
}

} // verus!
