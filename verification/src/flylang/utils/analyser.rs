use std::ops::Range;
use vstd::prelude::*;
use vstd::slice::slice_subrange;

verus! {

/// What an analyser is, mathematically: a sequence and a half-open window into it.
pub struct AnalyserView<T> {
    pub stream: Seq<T>,
    pub start: int,
    pub end: int,
}

impl<T> AnalyserView<T> {
    /// The items inside the window.
    pub open spec fn window(self) -> Seq<T> {
        self.stream.subrange(self.start, self.end)
    }

    /// Whether `length` items can be had after skipping `skip` items past the window.
    pub open spec fn able_to(self, skip: int, length: int) -> bool {
        self.end + skip + length <= self.stream.len()
    }

    /// The items that `lookup` sees.
    pub open spec fn ahead(self, skip: int, length: int) -> Seq<T> {
        self.stream.subrange(self.end + skip, self.end + skip + length)
    }

    pub open spec fn finished(self) -> bool {
        self.start == self.end && self.end == self.stream.len()
    }
}

/// A sliding-window cursor over a vector of items.
#[derive(Debug)]
pub struct Analyser<T> {
    stream: Vec<T>,
    range: Range<usize>,
}

impl<T> Analyser<T> {
    #[verifier::type_invariant]
    spec fn inv(self) -> bool {
        self.range.start <= self.range.end <= self.stream@.len()
    }

    pub closed spec fn view(&self) -> AnalyserView<T> {
        AnalyserView { stream: self.stream@, start: self.range.start as int,
            end: self.range.end as int, }
    }

    pub fn new(stream: Vec<T>) -> (r: Self)
        ensures
            r@ == (AnalyserView { stream: stream@, start: 0, end: 0 }),
    {
        Self { stream, range: 0..0 }
    }

    /// Get the current list of stream's elements
    pub fn get(&self) -> (r: &[T])
        ensures
            r@ == self@.window(),
    {
        proof {
            use_type_invariant(self);
        }
        slice_subrange(self.stream.as_slice(), self.range.start, self.range.end)
    }

    pub fn range(&self) -> (r: Range<usize>)
        ensures
            r.start == self@.start,
            r.end == self@.end,
            r.start <= r.end <= self@.stream.len(),
    {
        proof {
            use_type_invariant(self);
        }
        self.range.start..self.range.end
    }

    pub fn stream(&self) -> (r: &[T])
        ensures
            r@ == self@.stream,
    {
        self.stream.as_slice()
    }

    /// Returns if the analyser can skip `skip` elements and then have a length of `length`.
    pub fn able_to(&self, skip: usize, length: usize) -> (r: bool)
        ensures
            r == self@.able_to(skip as int, length as int),
    {
        proof {
            use_type_invariant(self);
        }
        let room = self.stream.len() - self.range.end;
        skip <= room && length <= room - skip
    }

    /// Returns if the analyser can increase its size by `by`
    pub fn able_to_increase(&self, by: usize) -> (r: bool)
        ensures
            r == self@.able_to(0, by as int),
    {
        self.able_to(0, by)
    }

    /// Set the range of the analyser.
    pub fn set(&mut self, range: Range<usize>)
        requires
            range.start <= range.end <= old(self)@.stream.len(),
        ensures
            final(self)@ == (AnalyserView {
                stream: old(self)@.stream,
                start: range.start as int,
                end: range.end as int,
            }),
    {
        proof {
            use_type_invariant(&*self);
        }
        self.range = range;
    }

    /// Go to the next items after the ending ones.
    pub fn next(&mut self, skip: usize, length: usize)
        requires
            old(self)@.able_to(skip as int, length as int),
        ensures
            final(self)@ == (AnalyserView {
                stream: old(self)@.stream,
                start: old(self)@.end + skip,
                end: old(self)@.end + skip + length,
            }),
    {
        proof {
            use_type_invariant(&*self);
            assert(self.stream.len() == self.stream@.len());
        }
        let from = self.range.end + skip;
        self.set(from..(from + length))
    }

    /// Increase the size of the analyser's content.
    pub fn increase(&mut self, by: usize)
        requires
            old(self)@.able_to(0, by as int),
        ensures
            final(self)@ == (AnalyserView {
                stream: old(self)@.stream,
                start: old(self)@.start,
                end: old(self)@.end + by,
            }),
    {
        proof {
            use_type_invariant(&*self);
            assert(self.stream.len() == self.stream@.len());
        }
        self.set(self.range.start..(self.range.end + by))
    }

    /// If the analyser range is < than the `length` parameter, try to increase it.
    /// Returns if the analyser, after being modified has a length >= than the given one.
    pub fn min_len(&mut self, length: usize) -> (r: bool)
        ensures
            final(self)@.stream == old(self)@.stream,
            final(self)@.start == old(self)@.start,
            final(self)@.end == if old(self)@.end - old(self)@.start < length && old(self)@.able_to(
                0,
                length as int,
            ) {
                old(self)@.end + length
            } else {
                old(self)@.end
            },
            r == (final(self)@.end - final(self)@.start >= length),
    {
        proof {
            use_type_invariant(&*self);
        }
        if self.range.end - self.range.start < length && self.able_to_increase(length) {
            self.increase(length);
        }
        proof {
            use_type_invariant(&*self);
        }
        self.range.end - self.range.start >= length
    }

    /// Lookup forward items.
    /// Returns None if the given arguments result to an invalid range.
    pub fn lookup(&self, skip: usize, length: usize) -> (r: Option<&[T]>)
        ensures
            r is Some == self@.able_to(skip as int, length as int),
            r matches Some(items) ==> items@ == self@.ahead(skip as int, length as int),
    {
        proof {
            use_type_invariant(self);
        }
        if self.able_to(skip, length) {
            assert(self.stream.len() == self.stream@.len());
            let from = self.range.end + skip;
            Some(slice_subrange(self.stream.as_slice(), from, from + length))
        } else {
            None
        }
    }

    /// Returns true if the range is [end, end[
    pub fn process_finished(&self) -> (r: bool)
        ensures
            r == self@.finished(),
    {
        self.range.start == self.range.end && self.range.end == self.stream.len()
    }
}

} // verus!
