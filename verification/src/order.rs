//! The order in which the commits of a history are played.

use vstd::prelude::*;

verus! {

/// The configured playback order.
#[derive(Clone, Copy, Debug, PartialEq, Eq, Structural)]
pub enum PlaybackOrder {
    /// Each round plays the commits in an order drawn by chance.
    Random,
    /// Oldest commit first.
    Asc,
    /// Newest commit first.
    Desc,
}

/// The commits `0..n`, oldest first.
pub open spec fn all_commits(n: nat) -> Seq<usize> {
    Seq::new(n, |i: int| i as usize)
}

/// The position in a waiting list of length `len` that is played next.
/// Under `Random` the draw `entropy` decides.
pub open spec fn pick_position(order: PlaybackOrder, len: nat, entropy: u64) -> int {
    match order {
        PlaybackOrder::Asc => 0,
        PlaybackOrder::Desc => len - 1,
        PlaybackOrder::Random => entropy as int % len as int,
    }
}

/// The commits that wait to be played, and the rule by which the next one is
/// taken.
#[derive(Debug)]
pub struct CommitQueue {
    order: PlaybackOrder,
    count: usize,
    looping: bool,
    waiting: Vec<usize>,
}

impl CommitQueue {
    /// The configured order.
    pub closed spec fn order(&self) -> PlaybackOrder {
        self.order
    }

    /// The number of commits in the history.
    pub closed spec fn count(&self) -> nat {
        self.count as nat
    }

    /// Whether playback starts over after the last commit.
    pub closed spec fn looping(&self) -> bool {
        self.looping
    }

    /// The commits of the current round that have not been played, oldest
    /// first.
    pub closed spec fn waiting(&self) -> Seq<usize> {
        self.waiting@
    }

    /// The waiting commits are commits of the history, in ascending order, so
    /// that none of them waits twice.
    pub open spec fn wf(&self) -> bool {
        &&& forall|i: int| 0 <= i < self.waiting().len() ==> (#[trigger] self.waiting()[i]) < self.count()
        &&& forall|i: int, j: int|
            0 <= i < j < self.waiting().len() ==> self.waiting()[i] < self.waiting()[j]
    }

    /// The waiting list from which the next commit is taken: the current one,
    /// or a fresh round of all commits once the current round is played out
    /// and playback loops.
    pub open spec fn round(&self) -> Seq<usize> {
        if self.waiting().len() == 0 && self.looping() {
            all_commits(self.count())
        } else {
            self.waiting()
        }
    }

    /// A queue over a history of `count` commits, none of them played.
    pub fn new(order: PlaybackOrder, count: usize, looping: bool) -> (r: CommitQueue)
        ensures
            r.wf(),
            r.order() == order,
            r.count() == count,
            r.looping() == looping,
            r.waiting() == all_commits(count as nat),
    {
        CommitQueue { order, count, looping, waiting: first_commits(count) }
    }

    /// Takes the next commit to play. Under `Random` the caller supplies the
    /// draw. `None` once every commit has been played and playback does not
    /// loop, or when the history is empty. A commit that was taken does not
    /// wait any more: no commit is played twice in a round.
    pub fn next(&mut self, entropy: u64) -> (r: Option<usize>)
        requires
            old(self).wf(),
        ensures
            final(self).wf(),
            final(self).order() == old(self).order(),
            final(self).count() == old(self).count(),
            final(self).looping() == old(self).looping(),
            r is None <==> old(self).round().len() == 0,
            r is None ==> final(self).waiting() == old(self).waiting(),
            r matches Some(commit) ==> {
                let round = old(self).round();
                let p = pick_position(old(self).order(), round.len(), entropy);
                &&& 0 <= p < round.len()
                &&& commit == round[p]
                &&& commit < old(self).count()
                &&& final(self).waiting() == round.remove(p)
                &&& !final(self).waiting().contains(commit)
            },
    {
        if self.waiting.len() == 0 && self.looping {
            self.waiting = first_commits(self.count);
        }
        let len = self.waiting.len();
        if len == 0 {
            return None;
        }
        let p: usize = match self.order {
            PlaybackOrder::Asc => 0,
            PlaybackOrder::Desc => len - 1,
            PlaybackOrder::Random => (entropy % (len as u64)) as usize,
        };
        let ghost round = self.waiting@;
        let commit = self.waiting.remove(p);
        proof {
            let rest = self.waiting@;
            assert forall|i: int| 0 <= i < rest.len() implies rest[i] != commit by {
                if i < p {
                    assert(rest[i] == round[i]);
                } else {
                    assert(rest[i] == round[i + 1]);
                }
            }
        }
        Some(commit)
    }

    /// The number of commits that wait in the current round.
    pub fn waiting_count(&self) -> (n: usize)
        ensures
            n == self.waiting().len(),
    {
        self.waiting.len()
    }
}

/// The commits `0..n` as a vector.
fn first_commits(n: usize) -> (r: Vec<usize>)
    ensures
        r@ == all_commits(n as nat),
{
    let mut r: Vec<usize> = Vec::new();
    let mut i: usize = 0;
    while i < n
        invariant
            i <= n,
            r@ == all_commits(i as nat),
        decreases n - i,
    {
        r.push(i);
        i += 1;
    }
    r
}

} // verus!
