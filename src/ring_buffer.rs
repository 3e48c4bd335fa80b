//! A double-ended buffer over a `VecDeque`, whose contents can be laid out
//! and read as one slice: items go in at the back and leave at the front.
use std::collections::VecDeque;
use vstd::prelude::*;

verus! {

/// A failure to allocate room for a buffer.
#[derive(Clone, Copy, Debug, PartialEq, Eq, Structural)]
pub enum AllocError {
    Oom,
    Other,
}

/// The items, front first.
pub struct SliceRingBuffer<T> {
    inner: VecDeque<T>,
}

/// Relies on `VecDeque::capacity`, which is never below the length.
#[verifier::external_body]
fn deque_capacity<T>(v: &VecDeque<T>) -> (r: usize)
    ensures
        r >= v@.len(),
{
    v.capacity()
}

/// Relies on `VecDeque::as_slices`: two slices holding, in order, the contents.
#[verifier::external_body]
fn deque_as_slices<T>(v: &VecDeque<T>) -> (r: (&[T], &[T]))
    ensures
        r.0@ + r.1@ == v@,
{
    v.as_slices()
}

/// Relies on `VecDeque::make_contiguous`: the contents, in order, laid out as
/// the one slice returned, through which they are changed.
#[verifier::external_body]
fn deque_make_contiguous<T>(v: &mut VecDeque<T>) -> (r: &mut [T])
    ensures
        r@ == old(v)@,
        final(r)@ == final(v)@,
{
    v.make_contiguous()
}

impl<T> View for SliceRingBuffer<T> {
    type V = Seq<T>;

    closed spec fn view(&self) -> Seq<T> {
        self.inner@
    }
}

impl<T> SliceRingBuffer<T> {
    pub fn new() -> (r: Self)
        ensures
            r@ == Seq::<T>::empty(),
    {
        SliceRingBuffer { inner: VecDeque::new() }
    }

    /// An empty buffer with room for `capacity` items.
    pub fn with_capacity(capacity: usize) -> (r: Self)
        ensures
            r@ == Seq::<T>::empty(),
    {
        SliceRingBuffer { inner: VecDeque::with_capacity(capacity) }
    }

    pub fn push_back(&mut self, value: T)
        ensures
            final(self)@ == old(self)@.push(value),
    {
        self.inner.push_back(value);
    }

    pub fn pop_front(&mut self) -> (r: Option<T>)
        ensures
            old(self)@.len() == 0 ==> r is None && final(self)@ == old(self)@,
            old(self)@.len() > 0 ==> r == Some(old(self)@[0]) && final(self)@ == old(self)@.drop_first(),
    {
        let r = self.inner.pop_front();
        proof {
            if old(self)@.len() > 0 {
                assert(self.inner@ =~= old(self)@.drop_first());
            }
        }
        r
    }

    /// The front run of items that lies in one piece; all of them once
    /// `as_mut_slice` has laid them out in one piece.
    pub fn as_slice(&self) -> (r: &[T])
        ensures
            r@.len() <= self@.len(),
            r@ == self@.subrange(0, r@.len() as int),
    {
        let (front, back) = deque_as_slices(&self.inner);
        proof {
            assert((front@ + back@).subrange(0, front@.len() as int) =~= front@);
        }
        front
    }

    /// All the items, front first, laid out in one piece, to be changed in place.
    pub fn as_mut_slice(&mut self) -> (r: &mut [T])
        ensures
            r@ == old(self)@,
            final(r)@ == final(self)@,
    {
        deque_make_contiguous(&mut self.inner)
    }

    pub fn len(&self) -> (r: usize)
        ensures
            r == self@.len(),
    {
        self.inner.len()
    }

    pub fn is_empty(&self) -> (r: bool)
        ensures
            r == (self@.len() == 0),
    {
        self.inner.len() == 0
    }

    /// How many items the buffer holds without growing: never fewer than it holds.
    pub fn capacity(&self) -> (r: usize)
        ensures
            r >= self@.len(),
    {
        deque_capacity(&self.inner)
    }

    /// A buffer holding `items`, the first of them at the front.
    pub fn from_iter(items: Vec<T>) -> (r: Self)
        ensures
            r@ == items@,
    {
        let ghost all = items@;
        let mut rest = items;
        let mut reversed: Vec<T> = Vec::new();
        while rest.len() > 0
            invariant
                rest@.len() <= all.len(),
                rest@ == all.subrange(0, rest@.len() as int),
                reversed@.len() == all.len() - rest@.len(),
                forall|k: int| 0 <= k < reversed@.len() ==> #[trigger] reversed@[k] == all[all.len() - 1 - k],
            decreases rest@.len(),
        {
            let x = rest.pop().unwrap();
            reversed.push(x);
            proof {
                assert(rest@ =~= all.subrange(0, rest@.len() as int));
            }
        }
        let mut inner: VecDeque<T> = VecDeque::new();
        while reversed.len() > 0
            invariant
                reversed@.len() <= all.len(),
                forall|k: int| 0 <= k < reversed@.len() ==> #[trigger] reversed@[k] == all[all.len() - 1 - k],
                inner@ == all.subrange(0, all.len() - reversed@.len()),
            decreases reversed@.len(),
        {
            let x = reversed.pop().unwrap();
            inner.push_back(x);
            proof {
                assert(inner@ =~= all.subrange(0, all.len() - reversed@.len()));
            }
        }
        SliceRingBuffer { inner }
    }

    /// Makes room for `additional` more items; the contents stay as they are.
    pub fn reserve(&mut self, additional: usize)
        ensures
            final(self)@ == old(self)@,
    {
        self.inner.reserve(additional);
    }

    /// Drops `offset` items from the front.
    pub fn move_tail(&mut self, offset: isize)
        requires
            0 <= offset <= old(self)@.len(),
        ensures
            final(self)@ == old(self)@.subrange(offset as int, old(self)@.len() as int),
    {
        let n = offset as usize;
        let mut k: usize = 0;
        while k < n
            invariant
                k <= n,
                n <= old(self)@.len(),
                self.inner@ == old(self)@.subrange(k as int, old(self)@.len() as int),
            decreases n - k,
        {
            let _ = self.inner.pop_front();
            proof {
                assert(self.inner@ =~= old(self)@.subrange(k + 1, old(self)@.len() as int));
            }
            k = k + 1;
        }
    }

    /// Drops `offset` items from the back.
    pub fn move_head(&mut self, offset: isize)
        requires
            0 <= offset <= old(self)@.len(),
        ensures
            final(self)@ == old(self)@.subrange(0, old(self)@.len() - offset),
    {
        let keep = self.inner.len() - offset as usize;
        self.inner.truncate(keep);
    }
}

} // verus!
