//! Opaque handles for a caller across a foreign boundary: a table of live objects keyed by
//! number. Borrowing an object leaves it in the table; freeing takes it out for good, and a
//! freed number is never given out again.
use vstd::prelude::*;

verus! {

#[derive(Debug)]
pub struct HandleTable<T> {
    slots: Vec<Option<T>>,
}

impl<T> HandleTable<T> {
    /// The live objects by handle.
    pub closed spec fn view(&self) -> Map<int, T> {
        Map::new(
            |h: int| 0 <= h < self.slots@.len() && self.slots@[h] is Some,
            |h: int| self.slots@[h]->Some_0,
        )
    }

    /// The number of handles given out so far.
    pub closed spec fn issued(&self) -> nat {
        self.slots@.len()
    }

    pub fn new() -> (r: HandleTable<T>)
        ensures
            r@ == Map::<int, T>::empty(),
            r.issued() == 0,
    {
        let r = HandleTable { slots: Vec::new() };
        proof {
            assert(r@ =~= Map::<int, T>::empty());
        }
        r
    }

    /// Puts `value` in the table under a new handle, which the caller then owns.
    pub fn into_handle(&mut self, value: T) -> (h: usize)
        requires
            old(self).issued() < usize::MAX,
        ensures
            !old(self)@.contains_key(h as int),
            h as int == old(self).issued(),
            final(self).issued() == old(self).issued() + 1,
            final(self)@ == old(self)@.insert(h as int, value),
    {
        let h = self.slots.len();
        self.slots.push(Some(value));
        proof {
            assert(self@ =~= old(self)@.insert(h as int, value));
        }
        h
    }

    /// The object of handle `h`, borrowed: it stays in the table.
    pub fn borrow(&self, h: usize) -> (r: Option<&T>)
        ensures
            match r {
                Some(v) => self@.contains_key(h as int) && *v == self@[h as int],
                None => !self@.contains_key(h as int),
            },
    {
        if h < self.slots.len() {
            match &self.slots[h] {
                Some(v) => Some(v),
                None => None,
            }
        } else {
            None
        }
    }

    /// Puts `value` back under handle `h`, which was given out before and is now empty: the
    /// return half of a check-out taken with `drop_handle`.
    pub fn check_in(&mut self, h: usize, value: T)
        requires
            (h as int) < old(self).issued(),
            !old(self)@.contains_key(h as int),
        ensures
            final(self).issued() == old(self).issued(),
            final(self)@ == old(self)@.insert(h as int, value),
    {
        let mut slot: Option<T> = Some(value);
        self.slots.set_and_swap(h, &mut slot);
        proof {
            assert(self@ =~= old(self)@.insert(h as int, value));
        }
    }

    /// Whether `h` was given out and was not freed.
    pub fn is_live(&self, h: usize) -> (r: bool)
        ensures
            r == self@.contains_key(h as int),
    {
        h < self.slots.len() && self.slots[h].is_some()
    }

    /// The number of handles given out so far.
    pub fn issued_count(&self) -> (r: usize)
        ensures
            r == self.issued(),
    {
        self.slots.len()
    }

    /// Takes the object of handle `h` out of the table; the handle is dead afterwards.
    pub fn drop_handle(&mut self, h: usize) -> (r: Option<T>)
        ensures
            final(self).issued() == old(self).issued(),
            match r {
                Some(v) => old(self)@.contains_key(h as int) && v == old(self)@[h as int]
                    && final(self)@ == old(self)@.remove(h as int),
                None => !old(self)@.contains_key(h as int) && final(self)@ == old(self)@,
            },
    {
        if h < self.slots.len() {
            let mut out: Option<T> = None;
            self.slots.set_and_swap(h, &mut out);
            proof {
                assert(self@ =~= old(self)@.remove(h as int));
                if out is None {
                    assert(old(self)@ =~= old(self)@.remove(h as int));
                }
            }
            out
        } else {
            proof {
                assert(self@ =~= old(self)@);
            }
            None
        }
    }
}

} // verus!
