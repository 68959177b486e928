use vstd::prelude::*;

verus! {

/// A value that is either settled in a state, or counting down the ticks left
/// before it settles in one.
#[derive(Debug, PartialEq, Eq, Copy, Clone)]
pub enum Transition<State> {
    In(State),
    TransitioningTo { state: State, ticks: u64 },
}

impl<State> Transition<State> {
    /// The value after one tick: a countdown at zero settles, a running
    /// countdown goes down by one, a settled value stays.
    pub open spec fn spec_step(self) -> Transition<State> {
        match self {
            Transition::In(state) => Transition::In(state),
            Transition::TransitioningTo { state, ticks } => if ticks == 0 {
                Transition::In(state)
            } else {
                Transition::TransitioningTo { state, ticks: (ticks - 1) as u64 }
            },
        }
    }

    pub fn step(self) -> (r: Transition<State>)
        ensures
            r == self.spec_step(),
    {
        match self {
            Transition::In(state) => Transition::In(state),
            Transition::TransitioningTo { state, ticks } => {
                if ticks == 0 {
                    Transition::In(state)
                } else {
                    Transition::TransitioningTo { state, ticks: ticks - 1 }
                }
            },
        }
    }
}


/// Something that accepts values one at a time.
pub trait Consumer<T> {
    fn consume(&mut self, t: T);
}

/// A consumer that discards whatever it is given.
pub struct BlackHole;

impl<T> Consumer<T> for BlackHole {
    fn consume(&mut self, _t: T) {
    }
}

/// A first-in first-out queue over a fixed set of slots. The slots are handed
/// over at construction; the queue never allocates.
pub struct RingBuf<T> {
    entries: Vec<T>,
    start: usize,
    len: usize,
}

impl<T> RingBuf<T> {
    #[verifier::type_invariant]
    spec fn inv(self) -> bool {
        &&& self.len <= self.entries.len()
        &&& (self.start < self.entries.len() || (self.entries.len() == 0 && self.start == 0))
    }

    /// How many items the queue can hold at once.
    pub closed spec fn capacity(self) -> nat {
        self.entries@.len()
    }

    /// The slot that holds the item `n` places behind the front.
    spec fn slot(self, n: int) -> int {
        if self.start + n < self.entries@.len() {
            self.start + n
        } else {
            self.start + n - self.entries@.len()
        }
    }
}

impl<T> View for RingBuf<T> {
    type V = Seq<T>;

    /// The queued items, front first.
    closed spec fn view(&self) -> Seq<T> {
        Seq::new(self.len as nat, |i: int| self.entries@[self.slot(i)])
    }
}

impl<T: Copy> RingBuf<T> {
    /// An empty queue whose slots are `entries`.
    pub fn new(entries: Vec<T>) -> (r: RingBuf<T>)
        ensures
            r@ == Seq::<T>::empty(),
            r.capacity() == entries@.len(),
    {
        let r = RingBuf { entries, start: 0, len: 0 };
        assert(r@ =~= Seq::<T>::empty());
        r
    }

    /// The number of free slots.
    pub fn space(&self) -> (r: usize)
        ensures
            r + self@.len() == self.capacity(),
    {
        proof {
            use_type_invariant(self);
        }
        self.entries.len() - self.len
    }

    /// The number of queued items.
    pub fn len(&self) -> (r: usize)
        ensures
            r == self@.len(),
    {
        self.len
    }

    /// The slot of the item `n` places behind the front.
    fn nth(&self, n: usize) -> (r: usize)
        requires
            n < self.capacity(),
        ensures
            r == self.slot(n as int),
            r < self.capacity(),
    {
        proof {
            use_type_invariant(self);
        }
        if n < self.entries.len() - self.start {
            self.start + n
        } else {
            n - (self.entries.len() - self.start)
        }
    }

    /// Appends `val` at the back; `None`, with the queue unchanged, when it is full.
    pub fn push_end(&mut self, val: T) -> (r: Option<()>)
        ensures
            r is Some <==> old(self)@.len() < old(self).capacity(),
            r is Some ==> final(self)@ == old(self)@.push(val),
            r is None ==> final(self)@ == old(self)@,
            final(self).capacity() == old(self).capacity(),
    {
        proof {
            use_type_invariant(&*self);
        }
        if self.space() > 0 {
            let i = self.nth(self.len);
            let ghost before = self@;
            self.entries[i] = val;
            self.len = self.len + 1;
            assert(self@ =~= before.push(val));
            Some(())
        } else {
            None
        }
    }

    /// The front item, if any.
    fn peek_front(&self) -> (r: Option<T>)
        ensures
            self@.len() == 0 ==> r is None,
            self@.len() > 0 ==> r == Some(self@[0]),
    {
        proof {
            use_type_invariant(self);
        }
        if self.len > 0 {
            let i = self.nth(0);
            Some(self.entries[i])
        } else {
            None
        }
    }

    /// Removes the front item.
    fn drop_front(&mut self)
        requires
            old(self)@.len() > 0,
        ensures
            final(self)@ == old(self)@.drop_first(),
            final(self).capacity() == old(self).capacity(),
    {
        proof {
            use_type_invariant(&*self);
        }
        let ghost before = self@;
        let mut start = self.start + 1;
        if start == self.entries.len() {
            start = 0;
        }
        self.start = start;
        self.len = self.len - 1;
        assert(self@ =~= before.drop_first());
    }

    /// Hands the front item to `f`. Where `f` returns `Some`, the item leaves
    /// the queue and that result is returned; where it returns `None`, or the
    /// queue is empty, the queue stays as it was and the result is `None`.
    pub fn with_front<F, U>(&mut self, f: F) -> (r: Option<U>)
        where
            F: FnOnce(T) -> Option<U>,
        requires
            old(self)@.len() > 0 ==> f.requires((old(self)@[0],)),
        ensures
            old(self)@.len() == 0 ==> r is None && final(self)@ == old(self)@,
            old(self)@.len() > 0 ==> f.ensures((old(self)@[0],), r),
            r is Some ==> final(self)@ == old(self)@.drop_first(),
            r is None ==> final(self)@ == old(self)@,
            final(self).capacity() == old(self).capacity(),
    {
        let front = match self.peek_front() {
            Some(front) => front,
            None => return None,
        };
        let result = match f(front) {
            Some(result) => result,
            None => return None,
        };
        self.drop_front();
        Some(result)
    }
}

impl<'s, W: Copy> Consumer<&'s [W]> for RingBuf<W> {
    /// Queues the whole slice when there is room for all of it, and nothing
    /// otherwise.
    fn consume(&mut self, slice: &'s [W])
        ensures
            old(self).capacity() - old(self)@.len() >= slice@.len() ==> final(self)@ == old(self)@
                + slice@,
            old(self).capacity() - old(self)@.len() < slice@.len() ==> final(self)@ == old(self)@,
            final(self).capacity() == old(self).capacity(),
    {
        if self.space() >= slice.len() {
            let ghost before = self@;
            let mut i: usize = 0;
            while i < slice.len()
                invariant
                    0 <= i <= slice@.len(),
                    self.capacity() == old(self).capacity(),
                    before.len() + slice@.len() <= self.capacity(),
                    self@ == before + slice@.subrange(0, i as int),
                decreases slice@.len() - i,
            {
                let r = self.push_end(slice[i]);
                assert(slice@.subrange(0, i + 1) =~= slice@.subrange(0, i as int).push(slice@[i as int]));
                i = i + 1;
            }
            assert(slice@.subrange(0, slice@.len() as int) =~= slice@);
        }
    }
}

} // verus!
