//! Walking a slice that may be missing: for each position of a range it yields the element
//! there, or, when the slice is missing, a placeholder, so that it can be walked beside lists
//! that are there.

use vstd::prelude::*;

verus! {

/// Yields, `count` times, the next element of `opt` (`Some(Some(x))`), or `Some(None)` where
/// `opt` is missing or used up; then `None`.
pub struct OptionIter<'a, X> {
    pub opt: Option<&'a [X]>,
    pub index: usize,
    pub count: usize,
}

impl<'a, X> OptionIter<'a, X> {
    /// Walks `count` positions of `opt` from its start.
    pub fn new(opt: Option<&'a [X]>, count: usize) -> (res: Self)
        ensures
            res.opt == opt,
            res.index == 0,
            res.count == count,
    {
        OptionIter { opt, index: 0, count }
    }

    /// The next item: `None` once `count` items were yielded, else the element at the current
    /// position of the slice, or `Some(None)` where there is none.
    pub fn next_item(&mut self) -> (res: Option<Option<&'a X>>)
        ensures
            old(self).count == 0 ==> res is None && *final(self) == *old(self),
            old(self).count > 0 ==> final(self).count == old(self).count - 1 && final(self).opt == old(self).opt
                && match old(self).opt {
                    Some(s) => if old(self).index < s@.len() {
                        res == Some(Some(&s@[old(self).index as int])) && final(self).index == old(self).index + 1
                    } else {
                        res == Some(None::<&X>) && final(self).index == old(self).index
                    },
                    None => res == Some(None::<&X>) && final(self).index == old(self).index,
                },
    {
        if self.count == 0 {
            return None;
        }
        self.count = self.count - 1;
        match self.opt {
            None => Some(None),
            Some(s) => {
                if self.index < s.len() {
                    let item = &s[self.index];
                    self.index = self.index + 1;
                    Some(Some(item))
                } else {
                    Some(None)
                }
            },
        }
    }
}

/// Walks the positions `start..end`: the elements of the slice there, or placeholders where
/// the slice is missing.
pub fn create_option_iter_from_slice<'a, X>(opt: Option<&'a [X]>, start: usize, end: usize) -> (res: OptionIter<'a, X>)
    requires
        start <= end,
        opt matches Some(s) ==> end <= s@.len(),
    ensures
        res.count == end - start,
        res.index == 0,
        match opt {
            Some(s) => res.opt matches Some(t) && t@ == s@.subrange(start as int, end as int),
            None => res.opt is None,
        },
{
    let mapped = match opt {
        Some(s) => Some(&s[start..end]),
        None => None,
    };
    OptionIter::new(mapped, end - start)
}

} // verus!
