use vstd::prelude::*;

verus! {

/// The end of a sequence at which padding items are added.
#[derive(Debug, Clone, Copy, PartialEq, Eq, Structural)]
pub enum PaddingSide {
    Start,
    End,
}

/// `s` with `count` copies of `item` in front of it or after it.
pub open spec fn padded_seq<T>(s: Seq<T>, item: T, count: nat, side: PaddingSide) -> Seq<T> {
    match side {
        PaddingSide::Start => Seq::new(count, |_i: int| item) + s,
        PaddingSide::End => s + Seq::new(count, |_i: int| item),
    }
}

/// A sequence with padding at one end, consumed from the front with `next`
/// and from the back with `next_back`.
pub struct PaddedIter<T> {
    inner: Vec<T>,
    padding_item: T,
    padding: usize,
    side: PaddingSide,
    front: usize,
    back: usize,
}

impl<T> PaddedIter<T> {
    /// The whole padded sequence, before anything was consumed.
    pub closed spec fn full(&self) -> Seq<T> {
        padded_seq(self.inner@, self.padding_item, self.padding as nat, self.side)
    }

    pub closed spec fn wf(&self) -> bool {
        self.front <= self.back <= self.inner@.len() + self.padding
    }
}

impl<T> View for PaddedIter<T> {
    type V = Seq<T>;

    /// The items not yet consumed, in order.
    closed spec fn view(&self) -> Seq<T> {
        self.full().subrange(self.front as int, self.back as int)
    }
}

impl<T: Copy> PaddedIter<T> {
    /// `inner` with `padding_count` copies of `padding_item` at `side`.
    pub fn new(inner: Vec<T>, padding_item: T, padding_count: usize, side: PaddingSide) -> (r: PaddedIter<T>)
        requires
            inner@.len() + padding_count <= usize::MAX,
        ensures
            r.wf(),
            r@ == padded_seq(inner@, padding_item, padding_count as nat, side),
    {
        let back = inner.len() + padding_count;
        let r = PaddedIter { inner, padding_item, padding: padding_count, side, front: 0, back };
        assert(r@ =~= r.full());
        r
    }

    /// Item `k` of the whole padded sequence.
    fn at(&self, k: usize) -> (v: T)
        requires
            self.wf(),
            k < self.inner@.len() + self.padding,
        ensures
            v == self.full()[k as int],
    {
        match self.side {
            PaddingSide::Start => {
                if k < self.padding {
                    self.padding_item
                } else {
                    self.inner[k - self.padding]
                }
            },
            PaddingSide::End => {
                if k < self.inner.len() {
                    self.inner[k]
                } else {
                    self.padding_item
                }
            },
        }
    }

    /// Takes the first remaining item.
    pub fn next(&mut self) -> (r: Option<T>)
        requires
            old(self).wf(),
        ensures
            final(self).wf(),
            old(self)@.len() == 0 ==> r is None && final(self)@ == old(self)@,
            old(self)@.len() > 0 ==> r == Some(old(self)@[0]) && final(self)@ == old(self)@.drop_first(),
    {
        if self.front < self.back {
            let v = self.at(self.front);
            self.front = self.front + 1;
            assert(self@ =~= old(self)@.drop_first());
            Some(v)
        } else {
            None
        }
    }

    /// Takes the last remaining item.
    pub fn next_back(&mut self) -> (r: Option<T>)
        requires
            old(self).wf(),
        ensures
            final(self).wf(),
            old(self)@.len() == 0 ==> r is None && final(self)@ == old(self)@,
            old(self)@.len() > 0 ==> r == Some(old(self)@.last()) && final(self)@ == old(self)@.drop_last(),
    {
        if self.front < self.back {
            let v = self.at(self.back - 1);
            self.back = self.back - 1;
            assert(self@ =~= old(self)@.drop_last());
            Some(v)
        } else {
            None
        }
    }

    /// The number of items left, as a lower and an upper bound.
    pub fn size_hint(&self) -> (r: (usize, Option<usize>))
        requires
            self.wf(),
        ensures
            r.0 == self@.len(),
            r.1 == Some(self@.len() as usize),
    {
        (self.back - self.front, Some(self.back - self.front))
    }
}

/// Padding for sequences held in a vector.
pub trait PadExt<T: Copy>: Sized {
    /// The items of the sequence.
    spec fn items(&self) -> Seq<T>;

    /// The sequence with `count` copies of `item` in front of it.
    fn pad_start(self, item: T, count: usize) -> (r: PaddedIter<T>)
        requires
            self.items().len() + count <= usize::MAX,
        ensures
            r.wf(),
            r@ == padded_seq(self.items(), item, count as nat, PaddingSide::Start),
    ;

    /// The sequence with `count` copies of `item` after it.
    fn pad_end(self, item: T, count: usize) -> (r: PaddedIter<T>)
        requires
            self.items().len() + count <= usize::MAX,
        ensures
            r.wf(),
            r@ == padded_seq(self.items(), item, count as nat, PaddingSide::End),
    ;
}

impl<T: Copy> PadExt<T> for Vec<T> {
    open spec fn items(&self) -> Seq<T> {
        self@
    }

    fn pad_start(self, item: T, count: usize) -> (r: PaddedIter<T>) {
        PaddedIter::new(self, item, count, PaddingSide::Start)
    }

    fn pad_end(self, item: T, count: usize) -> (r: PaddedIter<T>) {
        PaddedIter::new(self, item, count, PaddingSide::End)
    }
}

} // verus!
