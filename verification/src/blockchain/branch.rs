//! The forks that are followed.

use super::reference::Ref;
use vstd::prelude::*;

verus! {

/// A handle on one of the forks that a chain follows. All copies of a handle stand
/// for the same fork.
#[derive(Clone, Copy, Debug, PartialEq, Eq, Structural)]
pub struct Branch {
    /// The place of the fork among those that the chain follows.
    pub index: usize,
}

/// The forks that a chain follows, each by the reference to its last block.
pub struct Branches<L, S> {
    tips: Vec<Ref<L, S>>,
}

impl<L, S> Branches<L, S> {
    /// The last block of each fork.
    pub closed spec fn view(&self) -> Seq<Ref<L, S>> {
        self.tips@
    }

    /// No forks.
    pub fn new() -> (res: Self)
        ensures
            res@ == Seq::<Ref<L, S>>::empty(),
    {
        Branches { tips: Vec::new() }
    }

    /// The number of forks.
    pub fn len(&self) -> (res: usize)
        ensures
            res == self@.len(),
    {
        self.tips.len()
    }

    /// Follows another fork, which ends in `tip`.
    pub fn add(&mut self, tip: Ref<L, S>) -> (res: Branch)
        ensures
            final(self)@ == old(self)@.push(tip),
            res.index == old(self)@.len(),
    {
        let index: usize = self.tips.len();
        self.tips.push(tip);
        Branch { index }
    }

    /// The last block of a fork, if the fork is one of these.
    pub fn get_ref(&self, branch: Branch) -> (res: Option<Ref<L, S>>)
        ensures
            res == (if branch.index < self@.len() {
                Some(self@[branch.index as int])
            } else {
                None
            }),
    {
        if branch.index < self.tips.len() {
            Some(self.tips[branch.index].clone())
        } else {
            None
        }
    }

    /// Moves a fork on to another last block, and returns the one that it had.
    pub fn update_ref(&mut self, branch: Branch, tip: Ref<L, S>) -> (res: Ref<L, S>)
        requires
            branch.index < old(self)@.len(),
        ensures
            final(self)@ == old(self)@.update(branch.index as int, tip),
            res == old(self)@[branch.index as int],
    {
        let previous = self.tips[branch.index].clone();
        self.tips.set(branch.index, tip);
        previous
    }
}

} // verus!
