//! Slicing with indexes that may count from the end.
use vstd::prelude::*;
use vstd::slice::slice_subrange;

verus! {

/// One end of a range of positions; a negative position counts from the end, -1 being the
/// last element.
#[derive(Clone, Copy, Debug, PartialEq, Eq, Structural)]
pub enum SliceBound {
    Included(i32),
    Excluded(i32),
    Unbounded,
}

/// First position taken, for a list of `n` elements; `None` where nothing is taken.
pub open spec fn lower_inc(n: int, start: SliceBound) -> Option<int> {
    match start {
        SliceBound::Included(idx) => if idx < 0 {
            if -idx > n { Some(0) } else { Some(n + idx) }
        } else if idx >= n {
            None
        } else {
            Some(idx as int)
        },
        _ => Some(0),
    }
}

/// Last position taken, for a list of `n` elements; `None` where nothing is taken.
pub open spec fn upper_inc(n: int, end: SliceBound) -> Option<int> {
    match end {
        SliceBound::Included(idx) => if idx < 0 {
            if -idx > n { None } else { Some(n + idx) }
        } else if idx >= n {
            Some(n - 1)
        } else {
            Some(idx as int)
        },
        SliceBound::Excluded(idx) => if idx < 0 {
            if -idx + 1 > n { None } else { Some(n + idx - 1) }
        } else if idx > n {
            Some(n - 1)
        } else {
            Some(idx - 1)
        },
        SliceBound::Unbounded => Some(n - 1),
    }
}

/// Whether a list of `n` elements can be sliced between these bounds: the start is not
/// excluded, no bound is the least `i32` counted from the end, and where the start takes
/// something the end does not fall before the first element.
pub open spec fn smart_slice_defined(n: int, start: SliceBound, end: SliceBound) -> bool {
    &&& !(start is Excluded)
    &&& start != SliceBound::Included(i32::MIN)
    &&& lower_inc(n, start) is Some ==> {
        &&& end != SliceBound::Included(i32::MIN)
        &&& end != SliceBound::Excluded(i32::MIN)
        &&& upper_inc(n, end) matches Some(u) ==> u >= 0
    }
}

/// The elements between the bounds, both ends past the list ignored; empty where the start
/// falls after the end.
pub open spec fn smart_slice_spec<T>(s: Seq<T>, start: SliceBound, end: SliceBound) -> Seq<T> {
    match (lower_inc(s.len() as int, start), upper_inc(s.len() as int, end)) {
        (Some(lo), Some(up)) => if lo > up { Seq::empty() } else { s.subrange(lo, up + 1) },
        _ => Seq::empty(),
    }
}

/// Slicing that understands negative indexes as those going from the other end, -1 being
/// the last element. Indexing past either end is safely ignored. If the lower bound is past
/// the end or the (negative) upper bound is past the beginning, the slice is empty.
pub trait SmartSlice<'a> {
    type Sliced;

    /// Length of what is sliced.
    spec fn sliced_len(&self) -> nat;

    fn smart_slice(&'a self, start: SliceBound, end: SliceBound) -> Self::Sliced
        requires
            smart_slice_defined(self.sliced_len() as int, start, end),
    ;
}

impl<'a, T: 'a> SmartSlice<'a> for [T] {
    type Sliced = &'a [T];

    open spec fn sliced_len(&self) -> nat {
        self@.len()
    }

    fn smart_slice(&'a self, start: SliceBound, end: SliceBound) -> (r: &'a [T])
        ensures
            r@ == smart_slice_spec(self@, start, end),
    {
        let n = self.len();
        let empty = slice_subrange(self, 0, 0);
        assert(empty@ =~= Seq::<T>::empty());
        let lower: usize = match start {
            SliceBound::Included(idx) => if idx < 0 {
                let shift = (-idx) as usize;
                if shift > n { 0 } else { n - shift }
            } else if idx as usize >= n {
                return empty;
            } else {
                idx as usize
            },
            _ => 0,
        };
        let upper: usize = match end {
            SliceBound::Included(idx) => if idx < 0 {
                let shift = (-idx) as usize;
                if shift > n {
                    return empty;
                }
                n - shift
            } else if idx as usize >= n {
                n - 1
            } else {
                idx as usize
            },
            SliceBound::Excluded(idx) => if idx < 0 {
                let shift = (-idx) as usize + 1;
                if shift > n {
                    return empty;
                }
                n - shift
            } else if idx as usize > n {
                n - 1
            } else {
                (idx - 1) as usize
            },
            SliceBound::Unbounded => n - 1,
        };
        if lower > upper {
            empty
        } else {
            slice_subrange(self, lower, upper + 1)
        }
    }
}

/// Whatever the bounds, the result is a contiguous part of the list: indexing past either
/// end is ignored.
pub proof fn law_smart_slice_is_contiguous<T>(s: Seq<T>, start: SliceBound, end: SliceBound)
    ensures
        exists|lo: int, hi: int| 0 <= lo <= hi <= s.len() && #[trigger] s.subrange(lo, hi) == smart_slice_spec(s, start, end),
{
    let n = s.len() as int;
    match (lower_inc(n, start), upper_inc(n, end)) {
        (Some(lo), Some(up)) => if lo > up {
            assert(s.subrange(0, 0) =~= smart_slice_spec(s, start, end));
        } else {
            assert(0 <= lo <= up + 1);
            assert(up < n);
            assert(s.subrange(lo, up + 1) == smart_slice_spec(s, start, end));
        },
        _ => {
            assert(s.subrange(0, 0) =~= smart_slice_spec(s, start, end));
        },
    }
}

/// The unbounded range takes the whole list; a lower bound past the end, or a negative
/// upper bound past the beginning, takes nothing.
pub proof fn law_smart_slice_whole_and_empty<T>(s: Seq<T>, idx: i32)
    ensures
        smart_slice_spec(s, SliceBound::Unbounded, SliceBound::Unbounded) == s,
        idx >= s.len() ==> smart_slice_spec(s, SliceBound::Included(idx), SliceBound::Unbounded).len() == 0,
        idx < 0 && -idx > s.len() ==> smart_slice_spec(s, SliceBound::Unbounded, SliceBound::Included(idx)).len() == 0,
{
    if s.len() > 0 {
        assert(s.subrange(0, s.len() as int) =~= s);
    } else {
        assert(smart_slice_spec(s, SliceBound::Unbounded, SliceBound::Unbounded) =~= s);
    }
}

} // verus!
