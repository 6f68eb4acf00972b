//! The FIFO queue of paths waiting for a thumbnail.
//!
//! This is the queue's state and its decisions. The program shares one
//! queue between the interface thread and the thumbnail workers behind a
//! lock and a condition variable: a worker asks `try_pop`, and on `Wait`
//! sleeps until a `push` or `close` wakes it.
use std::collections::VecDeque;
use vstd::prelude::*;

verus! {

/// What a worker does after asking the queue for work.
#[derive(Debug, PartialEq, Eq)]
pub enum PopStep {
    /// Make a thumbnail of this path.
    Item(String),
    /// The queue is closed and empty: stop.
    Closed,
    /// The queue is open and empty: wait for a push or a close.
    Wait,
}

/// Paths waiting for a thumbnail, in arrival order, and whether the queue
/// was closed.
pub struct ThumbQueue {
    pending: VecDeque<String>,
    closed: bool,
}

/// The views of the strings of `s`.
pub open spec fn path_views(s: Seq<String>) -> Seq<Seq<char>> {
    s.map_values(|p: String| p@)
}

impl ThumbQueue {
    /// The pending paths, the oldest first.
    pub closed spec fn pending(&self) -> Seq<Seq<char>> {
        path_views(self.pending@)
    }

    /// Whether `close` was called.
    pub closed spec fn is_closed(&self) -> bool {
        self.closed
    }

    /// An open, empty queue.
    pub fn new() -> (r: Self)
        ensures
            r.pending() == Seq::<Seq<char>>::empty(),
            !r.is_closed(),
    {
        let r = ThumbQueue { pending: VecDeque::new(), closed: false };
        assert(r.pending() =~= Seq::<Seq<char>>::empty());
        r
    }

    /// An open queue holding `paths`, to be handed out in that order.
    pub fn from_paths(paths: Vec<String>) -> (r: Self)
        ensures
            r.pending() == path_views(paths@),
            !r.is_closed(),
    {
        let mut r = Self::new();
        let mut i: usize = 0;
        while i < paths.len()
            invariant
                i <= paths@.len(),
                r.pending() == path_views(paths@.take(i as int)),
                !r.is_closed(),
            decreases paths@.len() - i,
        {
            r.push(paths[i].clone());
            proof {
                assert(path_views(paths@.take(i + 1)) =~= path_views(paths@.take(i as int)).push(
                    paths@[i as int]@,
                ));
            }
            i = i + 1;
        }
        assert(paths@.take(i as int) =~= paths@);
        r
    }

    /// Appends `path` at the back of the queue.
    pub fn push(&mut self, path: String)
        ensures
            final(self).pending() == old(self).pending().push(path@),
            final(self).is_closed() == old(self).is_closed(),
    {
        self.pending.push_back(path);
        assert(self.pending() =~= old(self).pending().push(path@));
    }

    /// What a worker asking for work gets: the oldest pending path, or, when
    /// none is pending, `Closed` after `close` and `Wait` before it.
    pub fn try_pop(&mut self) -> (r: PopStep)
        ensures
            final(self).is_closed() == old(self).is_closed(),
            old(self).pending().len() > 0 ==> (r matches PopStep::Item(p) && p@ == old(
                self,
            ).pending()[0]) && final(self).pending() == old(self).pending().drop_first(),
            old(self).pending().len() == 0 ==> final(self).pending() == old(self).pending() && r == (
            if old(self).is_closed() {
                PopStep::Closed
            } else {
                PopStep::Wait
            }),
    {
        match self.pending.pop_front() {
            Some(p) => {
                assert(self.pending() =~= old(self).pending().drop_first());
                PopStep::Item(p)
            },
            None => {
                if self.closed {
                    PopStep::Closed
                } else {
                    PopStep::Wait
                }
            },
        }
    }

    /// The oldest pending path, or `None` once the queue is closed and
    /// empty. (An open, empty queue would make the caller wait.)
    pub fn pop(&mut self) -> (r: Option<String>)
        requires
            old(self).pending().len() > 0 || old(self).is_closed(),
        ensures
            final(self).is_closed() == old(self).is_closed(),
            old(self).pending().len() > 0 ==> (r matches Some(p) && p@ == old(self).pending()[0])
                && final(self).pending() == old(self).pending().drop_first(),
            old(self).pending().len() == 0 ==> r is None && final(self).pending() == old(
                self,
            ).pending(),
    {
        match self.try_pop() {
            PopStep::Item(p) => Some(p),
            _ => None,
        }
    }

    /// Discards every pending path; the queue stays open or closed.
    pub fn drain(&mut self)
        ensures
            final(self).pending() == Seq::<Seq<char>>::empty(),
            final(self).is_closed() == old(self).is_closed(),
    {
        self.pending.clear();
        assert(self.pending() =~= Seq::<Seq<char>>::empty());
    }

    /// Closes the queue: once the pending paths are handed out, workers
    /// are told to stop.
    pub fn close(&mut self)
        ensures
            final(self).pending() == old(self).pending(),
            final(self).is_closed(),
    {
        self.closed = true;
    }

    /// The number of pending paths.
    pub fn len(&self) -> (r: usize)
        ensures
            r == self.pending().len(),
    {
        self.pending.len()
    }

    /// `true` when no path is pending.
    pub fn is_empty(&self) -> (r: bool)
        ensures
            r == (self.pending().len() == 0),
    {
        self.pending.len() == 0
    }
}

impl Default for ThumbQueue {
    fn default() -> (r: Self)
        ensures
            r.pending() == Seq::<Seq<char>>::empty(),
            !r.is_closed(),
    {
        Self::new()
    }
}


/// Law: the queue is first in, first out. Pushing a path onto a queue that
/// holds `pending` changes neither which path is handed out next nor the
/// order of the others: the new path comes out after all of them.
pub proof fn law_fifo(pending: Seq<Seq<char>>, path: Seq<char>)
    ensures
        pending.len() > 0 ==> pending.push(path)[0] == pending[0] && pending.push(path).drop_first()
            == pending.drop_first().push(path),
        pending.len() == 0 ==> pending.push(path)[0] == path,
        pending.push(path).take(pending.len() as int) == pending,
{
    assert(pending.push(path).take(pending.len() as int) =~= pending);
    if pending.len() > 0 {
        assert(pending.push(path).drop_first() =~= pending.drop_first().push(path));
    }
}

} // verus!
