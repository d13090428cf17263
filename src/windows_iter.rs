use vstd::prelude::*;

verus! {

/// The windows of exactly `size` consecutive items of `s`, in order. A
/// sequence shorter than `size` gives none.
pub open spec fn windows_seq<T>(s: Seq<T>, size: nat) -> Seq<Seq<T>> {
    if s.len() < size {
        Seq::empty()
    } else {
        Seq::new((s.len() - size + 1) as nat, |k: int| s.subrange(k, k + size))
    }
}

/// A sliding window over a sequence, one step at a time.
pub struct Windows<T> {
    items: Vec<T>,
    size: usize,
    next: usize,
}

impl<T> Windows<T> {
    pub closed spec fn wf(&self) -> bool {
        &&& self.size >= 1
        &&& self.next <= windows_seq(self.items@, self.size as nat).len()
    }
}

impl<T> View for Windows<T> {
    type V = Seq<Seq<T>>;

    /// The windows not yet produced, in order.
    closed spec fn view(&self) -> Seq<Seq<T>> {
        windows_seq(self.items@, self.size as nat).skip(self.next as int)
    }
}

impl<T: Copy> Windows<T> {
    /// The windows of `size` consecutive items of `items`.
    pub fn new(items: Vec<T>, size: usize) -> (r: Windows<T>)
        requires
            size >= 1,
        ensures
            r.wf(),
            r@ == windows_seq(items@, size as nat),
    {
        let r = Windows { items, size, next: 0 };
        assert(r@ =~= windows_seq(r.items@, size as nat));
        r
    }

    fn count(&self) -> (n: usize)
        requires
            self.size >= 1,
        ensures
            n == windows_seq(self.items@, self.size as nat).len(),
    {
        let len = self.items.len();
        if len < self.size {
            0
        } else {
            len - self.size + 1
        }
    }

    /// The number of windows left, as a lower and an upper bound.
    pub fn size_hint(&self) -> (r: (usize, Option<usize>))
        requires
            self.wf(),
        ensures
            r.0 == self@.len(),
            r.1 == Some(self@.len() as usize),
    {
        let left = self.count() - self.next;
        (left, Some(left))
    }

    /// The next window, or `None` when all were produced.
    pub fn next(&mut self) -> (r: Option<Vec<T>>)
        requires
            old(self).wf(),
        ensures
            final(self).wf(),
            old(self)@.len() == 0 ==> r is None && final(self)@ == old(self)@,
            old(self)@.len() > 0 ==> r is Some && r->0@ == old(self)@[0] && final(self)@
                == old(self)@.drop_first(),
    {
        let n = self.count();
        if self.next >= n {
            return None;
        }
        let _len: usize = self.items.len();
        let end: usize = self.next + self.size;
        let ghost expected = windows_seq(self.items@, self.size as nat)[self.next as int];
        let mut w: Vec<T> = Vec::new();
        let mut i: usize = self.next;
        while i < end
            invariant
                self.next <= i <= end <= self.items@.len(),
                w@ == self.items@.subrange(self.next as int, i as int),
            decreases end - i,
        {
            w.push(self.items[i]);
            assert(w@ =~= self.items@.subrange(self.next as int, i + 1));
            i = i + 1;
        }
        assert(w@ =~= expected);
        self.next = self.next + 1;
        assert(self@ =~= old(self)@.drop_first());
        Some(w)
    }
}

/// Sliding windows for sequences held in a vector.
pub trait IterWindows<T: Copy>: Sized {
    /// The items of the sequence.
    spec fn items(&self) -> Seq<T>;

    /// The windows of `size` consecutive items.
    fn windows(self, size: usize) -> (r: Windows<T>)
        requires
            size >= 1,
        ensures
            r.wf(),
            r@ == windows_seq(self.items(), size as nat),
    ;
}

impl<T: Copy> IterWindows<T> for Vec<T> {
    open spec fn items(&self) -> Seq<T> {
        self@
    }

    fn windows(self, size: usize) -> (r: Windows<T>) {
        Windows::new(self, size)
    }
}

} // verus!
