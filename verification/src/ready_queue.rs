//! Bounded first-in first-out queue.

use vstd::prelude::*;

verus! {

/// Ring buffer of at most `N` entries; its view is the sequence of entries, oldest first.
pub struct ReadyQueue<T, const N: usize> {
    buf: Vec<Option<T>>,
    head: usize,
    len: usize,
}

impl<T, const N: usize> View for ReadyQueue<T, N> {
    type V = Seq<T>;

    closed spec fn view(&self) -> Seq<T> {
        Seq::new(self.len as nat, |i: int| self.buf@[slot::<N>(self.head, i)]->0)
    }
}

/// Position of the `i`-th entry behind `head` in the ring.
spec fn slot<const N: usize>(head: usize, i: int) -> int {
    if head + i < N {
        head + i
    } else {
        head + i - N
    }
}

impl<T, const N: usize> ReadyQueue<T, N> {
    #[verifier::type_invariant]
    spec fn inv(self) -> bool {
        &&& self.buf@.len() == N
        &&& self.len <= N
        &&& self.head < N || (N == 0 && self.head == 0)
        &&& forall|i: int|
            0 <= i < self.len ==> (#[trigger] self.buf@[slot::<N>(self.head, i)]) is Some
    }

    /// An empty queue.
    pub fn new() -> (r: Self)
        ensures
            r@ == Seq::<T>::empty(),
    {
        let mut buf: Vec<Option<T>> = Vec::new();
        while buf.len() < N
            invariant
                buf@.len() <= N,
            decreases N - buf.len(),
        {
            buf.push(None);
        }
        let r = ReadyQueue { buf, head: 0, len: 0 };
        assert(r@ =~= Seq::<T>::empty());
        r
    }

    /// Append an entry, unless the queue is full.
    pub fn push(&mut self, v: T) -> (r: Result<(), ()>)
        ensures
            match r {
                Ok(_) => old(self)@.len() < N && final(self)@ == old(self)@.push(v),
                Err(_) => old(self)@.len() == N && final(self)@ == old(self)@,
            },
    {
        proof {
            use_type_invariant(&*self);
        }
        if self.len == N {
            return Err(());
        }
        let tail: usize = if self.head < N - self.len {
            self.head + self.len
        } else {
            self.head - (N - self.len)
        };
        self.buf[tail] = Some(v);
        self.len = self.len + 1;
        assert(self@ =~= old(self)@.push(v));
        Ok(())
    }

    /// Take the oldest entry.
    pub fn pop(&mut self) -> (r: Option<T>)
        ensures
            match r {
                Some(v) => old(self)@.len() > 0 && v == old(self)@[0] && final(self)@
                    == old(self)@.skip(1),
                None => old(self)@.len() == 0 && final(self)@ == old(self)@,
            },
    {
        proof {
            use_type_invariant(&*self);
        }
        if self.len == 0 {
            return None;
        }
        let at: usize = self.head;
        let next: usize = if at + 1 < N {
            at + 1
        } else {
            0
        };
        assert(slot::<N>(at, 0) == at && self.buf@[slot::<N>(at, 0)] is Some);
        assert forall|i: int| 0 <= i < self.len - 1 implies (#[trigger] self.buf@[slot::<N>(
            next,
            i,
        )]) is Some by {
            assert(slot::<N>(next, i) == slot::<N>(at, i + 1));
        }
        self.len = self.len - 1;
        self.head = next;
        let v = self.buf[at].take();
        assert(self@ =~= old(self)@.skip(1)) by {
            assert forall|i: int| 0 <= i < self.len implies self@[i] == old(self)@[i + 1] by {
                assert(slot::<N>(next, i) == slot::<N>(at, i + 1));
            }
        }
        v
    }

    /// Whether the queue holds nothing.
    pub fn is_empty(&self) -> (r: bool)
        ensures
            r == (self@.len() == 0),
    {
        self.len == 0
    }
}

/// Entries leave a queue in the order in which they entered it: an entry pushed onto a queue of
/// `k` entries is the one that comes out after `k` others.
pub proof fn first_in_first_out<T>(q: Seq<T>, v: T)
    ensures
        q.push(v).skip(q.len() as int) == seq![v],
        forall|i: int| 0 <= i < q.len() ==> q.push(v)[i] == q[i],
{
    assert(q.push(v).skip(q.len() as int) =~= seq![v]);
}

/// A queue takes entries in behind those that it holds until it is full, and gives the oldest out.
pub proof fn queues_keep_order<T, const N: usize>(
    a: &mut ReadyQueue<T, N>,
    v: T,
    pushed: Result<(), ()>,
    b: &mut ReadyQueue<T, N>,
    popped: Option<T>,
)
    requires
        call_ensures(ReadyQueue::<T, N>::push, (a, v), pushed),
        call_ensures(ReadyQueue::<T, N>::pop, (b,), popped),
    ensures
        old(a)@.len() < N ==> pushed is Ok && final(a)@ == old(a)@ + seq![v],
        old(a)@.len() == N ==> pushed is Err && final(a)@ == old(a)@,
        old(b)@.len() > 0 ==> popped == Some(old(b)@[0]) && seq![old(b)@[0]] + final(b)@
            == old(b)@,
        old(b)@.len() == 0 ==> popped is None && final(b)@ == old(b)@,
{
    if old(a)@.len() < N {
        assert(old(a)@.push(v) =~= old(a)@ + seq![v]);
    }
    if old(b)@.len() > 0 {
        assert(seq![old(b)@[0]] + old(b)@.skip(1) =~= old(b)@);
    }
}

} // verus!
