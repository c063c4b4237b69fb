//! Ordered stack of visited address strings.

use vstd::prelude::*;

verus! {

/// Ordered stack of visited address strings. The last entry is the
/// address currently displayed; going back pops it and re-fetches the
/// entry that becomes last.
pub struct History {
    entries: Vec<String>,
}

impl History {
    pub closed spec fn view(&self) -> Seq<Seq<char>> {
        self.entries@.map(|i: int, s: String| s@)
    }

    pub fn new() -> (r: History)
        ensures
            r@ == Seq::<Seq<char>>::empty(),
    {
        let h = History { entries: Vec::new() };
        proof {
            assert(h@ =~= Seq::<Seq<char>>::empty());
        }
        h
    }

    /// Appends unconditionally; no deduplication.
    pub fn push(&mut self, address: String)
        ensures
            final(self)@ == old(self)@.push(address@),
    {
        self.entries.push(address);
        proof {
            assert(self@ =~= old(self)@.push(address@));
        }
    }

    /// Removes and returns the last entry, if any.
    pub fn pop(&mut self) -> (r: Option<String>)
        ensures
            old(self)@.len() == 0 ==> r is None && final(self)@ == old(self)@,
            old(self)@.len() > 0 ==> (match r {
                Some(s) => s@ == old(self)@.last() && final(self)@ == old(self)@.drop_last(),
                None => false,
            }),
    {
        let r = self.entries.pop();
        proof {
            if old(self)@.len() > 0 {
                assert(self@ =~= old(self)@.drop_last());
            } else {
                assert(self@ =~= old(self)@);
            }
        }
        r
    }

    /// The most recently pushed entry that is still present.
    pub fn peek_previous(&self) -> (r: Option<&String>)
        ensures
            self@.len() == 0 ==> r is None,
            self@.len() > 0 ==> (match r {
                Some(s) => s@ == self@.last(),
                None => false,
            }),
    {
        self.entries.last()
    }

    pub fn len(&self) -> (r: usize)
        ensures
            r == self@.len(),
    {
        self.entries.len()
    }
}

/// Pushing an address and then popping restores the history that stood
/// before the push, and the popped entry is the pushed address.
pub proof fn lemma_push_pop(h: Seq<Seq<char>>, address: Seq<char>)
    ensures
        h.push(address).last() == address,
        h.push(address).drop_last() == h,
{
    assert(h.push(address).drop_last() =~= h);
}

} // verus!
