use vstd::prelude::*;
use vstd::std_specs::cmp::PartialEqSpec;

verus! {

/// One cell of a grid that can be overlaid onto another: either a value, or a
/// hole through which the underlying cell shows.
#[derive(Debug, Clone, PartialEq)]
pub enum StampPart<T> {
    Use(T),
    Transparent,
}

/// One cell of a search pattern.
#[derive(Debug, PartialEq)]
pub enum QueryStampPart<T> {
    /// Matches a cell that holds one of the listed values.
    Is(Box<[T]>),
    /// Matches any cell but one that holds one of the listed values.
    Not(Box<[T]>),
    /// Matches every cell.
    Any,
}

/// Why an operation on a grid was refused.
#[derive(Debug, Clone, Copy, PartialEq, Eq)]
pub enum StampError {
    /// A coordinate, or a footprint placed at an anchor, lies outside the grid.
    OutOfBounds,
    /// The rows given to build a grid are not all of one length.
    IrregularShape,
}

/// `v` is equal, by `T`'s own equality, to one of the values in `set`.
pub open spec fn listed<T: PartialEq>(set: Seq<T>, v: T) -> bool {
    exists|k: int| 0 <= k < set.len() && #[trigger] set[k].eq_spec(&v)
}

/// Whether the query cell `q` accepts the grid cell `c`.
pub open spec fn accepts<T: PartialEq>(q: QueryStampPart<T>, c: StampPart<T>) -> bool {
    match q {
        QueryStampPart::Any => true,
        QueryStampPart::Is(set) => match c {
            StampPart::Use(v) => listed(set@, v),
            StampPart::Transparent => false,
        },
        QueryStampPart::Not(set) => match c {
            StampPart::Use(v) => !listed(set@, v),
            StampPart::Transparent => true,
        },
    }
}

/// Tests whether `v` equals one of the values in `set`, in order, stopping at
/// the first equal one.
pub(crate) fn contains_value<T: PartialEq>(set: &[T], v: &T) -> (r: bool)
    requires
        T::obeys_eq_spec(),
    ensures
        r == listed(set@, *v),
{
    let mut k: usize = 0;
    while k < set.len()
        invariant
            T::obeys_eq_spec(),
            k <= set@.len(),
            forall|j: int| 0 <= j < k ==> !(#[trigger] set@[j]).eq_spec(v),
        decreases set@.len() - k,
    {
        if set[k].eq(v) {
            return true;
        }
        k += 1;
    }
    false
}

/// Whether the query cell `q` accepts the grid cell `c`.
pub(crate) fn cell_accepts<T: PartialEq>(q: &QueryStampPart<T>, c: &StampPart<T>) -> (r: bool)
    requires
        T::obeys_eq_spec(),
    ensures
        r == accepts(*q, *c),
{
    match q {
        QueryStampPart::Any => true,
        QueryStampPart::Is(set) => match c {
            StampPart::Use(v) => contains_value(set, v),
            StampPart::Transparent => false,
        },
        QueryStampPart::Not(set) => match c {
            StampPart::Use(v) => !contains_value(set, v),
            StampPart::Transparent => true,
        },
    }
}

} // verus!
