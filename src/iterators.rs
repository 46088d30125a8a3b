//! Filtering a list by a field, and a counter that hands out the numbers one
//! to five.

use vstd::prelude::*;

verus! {

/// A shoe of a given size and style.
pub struct Shoe {
    pub size: u32,
    pub style: String,
}

/// The test a shoe passes to be kept: its size is `shoe_size`.
pub open spec fn has_size(shoe_size: u32) -> spec_fn(Shoe) -> bool {
    |s: Shoe| s.size == shoe_size
}

/// The shoes of `shoes` whose size is `shoe_size`, in their order.
pub fn shoes_in_size(shoes: Vec<Shoe>, shoe_size: u32) -> (r: Vec<Shoe>)
    ensures
        r@ == shoes@.filter(has_size(shoe_size)),
{
    let ghost all = shoes@;
    let mut r: Vec<Shoe> = Vec::new();
    for s in it: shoes.into_iter()
        invariant
            it.seq() == all,
            r@ == all.take(it.index() as int).filter(has_size(shoe_size)),
    {
        proof {
            assert(all.take(it.index() + 1) =~= all.take(it.index() as int).push(s));
            all.take(it.index() as int).lemma_filter_push(s, has_size(shoe_size));
        }
        if s.size == shoe_size {
            r.push(s);
        }
    }
    proof {
        assert(all.take(all.len() as int) =~= all);
    }
    r
}

/// The highest number a counter hands out.
pub const COUNTER_LIMIT: u32 = 5;

/// A counter that hands out the numbers one to five, in order.
pub struct Counter {
    count: u32,
}

/// The numbers that a counter which has reached `count` still hands out.
pub open spec fn counts_after(count: u32) -> Seq<u32> {
    if count < COUNTER_LIMIT {
        Seq::new((COUNTER_LIMIT - count) as nat, |i: int| (count + 1 + i) as u32)
    } else {
        Seq::empty()
    }
}

impl Counter {
    /// How far the counter has counted.
    pub closed spec fn reached(&self) -> u32 {
        self.count
    }

    /// A counter that has handed out nothing yet.
    pub fn new() -> (r: Counter)
        ensures
            r.reached() == 0,
            counts_after(r.reached()) == seq![1u32, 2, 3, 4, 5],
    {
        let r = Counter { count: 0 };
        assert(counts_after(0) =~= seq![1u32, 2, 3, 4, 5]);
        r
    }

    /// The next number, or `None` once five has been handed out.
    pub fn next(&mut self) -> (r: Option<u32>)
        ensures
            old(self).reached() < COUNTER_LIMIT ==> final(self).reached() == old(self).reached()
                + 1 && r == Some(final(self).reached()),
            old(self).reached() >= COUNTER_LIMIT ==> final(self).reached() == old(self).reached()
                && r is None,
    {
        if self.count < COUNTER_LIMIT {
            self.count = self.count + 1;
            return Some(self.count);
        } else {
            return None;
        }
    }

    /// Every number the counter still hands out, in order.
    pub fn collect_remaining(&mut self) -> (r: Vec<u32>)
        ensures
            r@ == counts_after(old(self).reached()),
            counts_after(final(self).reached()).len() == 0,
    {
        let ghost start = self.count;
        let mut r: Vec<u32> = Vec::new();
        loop
            invariant
                start == old(self).count,
                start < COUNTER_LIMIT ==> start <= self.count <= COUNTER_LIMIT,
                start >= COUNTER_LIMIT ==> self.count == start,
                r@ == counts_after(start).take(r@.len() as int),
                r@.len() == (if start < COUNTER_LIMIT {
                    self.count - start
                } else {
                    0
                }),
            decreases COUNTER_LIMIT - self.count,
        {
            match self.next() {
                Some(n) => {
                    proof {
                        assert(counts_after(start).take(r@.len() + 1 as int) =~= r@.push(n));
                    }
                    r.push(n);
                },
                None => {
                    proof {
                        assert(counts_after(start).take(r@.len() as int) =~= counts_after(start));
                    }
                    return r;
                },
            }
        }
    }
}

} // verus!
