use vstd::prelude::*;
use vstd::std_specs::cmp::PartialEqSpec;

verus! {

/// A first-in first-out queue that holds at most `max_size` items.
pub struct Queue<T> {
    max_size: u32,
    queue: Vec<T>,
}

impl<T> View for Queue<T> {
    type V = Seq<T>;

    /// The items, oldest first.
    closed spec fn view(&self) -> Seq<T> {
        self.queue@
    }
}

/// `items` without those equal to `item`, order kept.
pub open spec fn without_item<T: PartialEq>(items: Seq<T>, item: T) -> Seq<T>
    decreases items.len(),
{
    if items.len() == 0 {
        items
    } else {
        let rest = without_item(items.drop_last(), item);
        if items.last().eq_spec(&item) {
            rest
        } else {
            rest.push(items.last())
        }
    }
}

impl<T> Queue<T> {
    /// The most items the queue holds.
    pub closed spec fn capacity(&self) -> nat {
        self.max_size as nat
    }

    /// The queue never holds more than its capacity.
    pub closed spec fn wf(&self) -> bool {
        self.queue@.len() <= self.max_size
    }
}

impl<T: PartialEq> Queue<T> {
    /// An empty queue for at most `size` items.
    pub fn new(size: u32) -> (r: Self)
        ensures
            r.wf(),
            r@ == Seq::<T>::empty(),
            r.capacity() == size,
    {
        Queue { max_size: size, queue: Vec::new() }
    }

    /// Appends `item` if the queue is not full; returns whether it did.
    pub fn enqueue(&mut self, item: T) -> (r: bool)
        requires
            old(self).wf(),
        ensures
            final(self).wf(),
            r == (old(self)@.len() < old(self).capacity()),
            r ==> final(self)@ == old(self)@.push(item),
            !r ==> final(self)@ == old(self)@,
            final(self).capacity() == old(self).capacity(),
    {
        if self.queue.len() < self.max_size as usize {
            self.queue.push(item);
            return true;
        }
        false
    }

    /// Takes out the oldest item.
    pub fn dequeue(&mut self) -> (r: T)
        requires
            old(self).wf(),
            old(self)@.len() > 0,
        ensures
            final(self).wf(),
            r == old(self)@[0],
            final(self)@ == old(self)@.drop_first(),
            final(self).capacity() == old(self).capacity(),
    {
        let r = self.queue.remove(0);
        assert(self.queue@ =~= old(self)@.drop_first());
        r
    }

    /// The number of items.
    pub fn length(&self) -> (r: u32)
        requires
            self.wf(),
        ensures
            r as int == self@.len(),
    {
        self.queue.len() as u32
    }

    /// Whether the queue holds no item.
    pub fn is_empty(&self) -> (r: bool)
        ensures
            r == (self@.len() == 0),
    {
        self.queue.len() == 0
    }

    /// The oldest item, if any.
    pub fn peek(&self) -> (r: Option<&T>)
        ensures
            self@.len() == 0 ==> r is None,
            self@.len() > 0 ==> r == Some(&self@[0]),
    {
        if self.queue.len() == 0 {
            None
        } else {
            Some(&self.queue[0])
        }
    }

    /// Whether an item equal to `item` is queued.
    pub fn contains(&self, item: T) -> (r: bool)
        ensures
            T::obeys_eq_spec() ==> (r == exists|i: int| 0 <= i < self@.len() && self@[i].eq_spec(&item)),
    {
        let mut i: usize = 0;
        while i < self.queue.len()
            invariant
                0 <= i <= self@.len(),
                T::obeys_eq_spec() ==> forall|j: int| 0 <= j < i ==> !self@[j].eq_spec(&item),
            decreases self@.len() - i,
        {
            if self.queue[i].eq(&item) {
                return true;
            }
            i = i + 1;
        }
        false
    }

    /// Takes out every item equal to `item`, keeping the order of the others.
    pub fn remove(&mut self, item: T)
        requires
            old(self).wf(),
        ensures
            final(self).wf(),
            T::obeys_eq_spec() ==> final(self)@ == without_item(old(self)@, item),
            final(self).capacity() == old(self).capacity(),
    {
        let mut rest: Vec<T> = Vec::new();
        let mut i: usize = 0;
        let n = self.queue.len();
        while self.queue.len() > 0
            invariant
                n == old(self)@.len(),
                self.max_size == old(self).max_size,
                n <= self.max_size,
                i + self.queue@.len() == n,
                self.queue@ == old(self)@.subrange(i as int, n as int),
                rest@.len() <= i,
                T::obeys_eq_spec() ==> rest@ == without_item(old(self)@.subrange(0, i as int), item),
            decreases self.queue@.len(),
        {
            let x = self.queue.remove(0);
            proof {
                assert(old(self)@.subrange(0, i as int + 1).drop_last() =~= old(self)@.subrange(0, i as int));
                assert(old(self)@.subrange(0, i as int + 1).last() == x);
            }
            if !x.eq(&item) {
                rest.push(x);
            }
            assert(self.queue@ =~= old(self)@.subrange(i as int + 1, n as int));
            i = i + 1;
        }
        assert(old(self)@.subrange(0, n as int) =~= old(self)@);
        self.queue = rest;
    }
}

} // verus!
