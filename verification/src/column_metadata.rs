//! The configuration surface the rest of the pipeline is generic over: a
//! closed, named set of column identifiers, each with a declared list of
//! dependency columns and per-column computation hooks.
//!
//! A taxonomy is an enum implementing [`ColumnMetadata`]: identifiers are
//! cheap-to-copy values, names are fixed at build time, and every executable
//! hook is pinned to a specification-level counterpart so that code built on
//! the trait can be verified against the declared names, dependencies, and
//! conversions.

use vstd::prelude::*;
use crate::mpc_metric_dtype::{opt_view, DTypeView, MPCMetricDType};
use crate::row::{rows_view, Row};

verus! {

/// One member of a closed set of columns: it knows its human-readable name,
/// the columns it depends on, and how to compute its value from a raw input
/// token, from a partially populated row, or as an aggregate across rows.
pub trait ColumnMetadata: Sized + Copy {
    /// The column's declared name.
    spec fn spec_name(&self) -> Seq<char>;

    /// The columns this column directly depends on, in declaration order.
    spec fn spec_dependencies(&self) -> Seq<Self>;

    /// The column a name parses to, if any.
    spec fn spec_from_str(s: Seq<char>) -> Option<Self>;

    /// The value this column computes from one raw input token; `None` when
    /// the token cannot be interpreted.
    spec fn spec_from_input(&self, input: Seq<char>) -> Option<DTypeView>;

    /// The value this column computes from a row; `None` when the column
    /// defines no such computation.
    spec fn spec_from_row(&self, r: Map<Self, DTypeView>) -> Option<DTypeView>;

    /// The reduction of this column's values across a sequence of rows;
    /// `None` when the column defines no such computation.
    spec fn spec_aggregate(&self, rows: Seq<Map<Self, DTypeView>>) -> Option<DTypeView>;

    /// The human-readable name for this column, known at compile time.
    fn name(&self) -> (r: &'static str)
        ensures
            r@ == self.spec_name(),
    ;

    /// The list of columns this column depends on, used to build the
    /// dependency graph.
    fn dependencies(&self) -> (r: Vec<Self>)
        ensures
            r@ == self.spec_dependencies(),
    ;

    /// Decides equality of two column identifiers.
    fn eq_col(&self, other: &Self) -> (r: bool)
        ensures
            r == (*self == *other),
    ;

    /// Parses a column name; an unrecognized name is rejected with an error
    /// rather than a panic, so unexpected input headers can be tolerated.
    fn from_str(s: &str) -> (r: Result<Self, ()>)
        ensures
            match r {
                Ok(c) => Self::spec_from_str(s@) == Some(c),
                Err(_) => Self::spec_from_str(s@) is None,
            },
    ;

    /// Converts one raw input token to this column's value; `None` when the
    /// token cannot be interpreted.
    fn from_input(&self, input: &str) -> (r: Option<MPCMetricDType>)
        ensures
            opt_view(r) == self.spec_from_input(input@),
    ;

    /// Computes this column's value from the given row; `None` when the
    /// column defines no row computation.
    fn from_row(&self, r: &Row<Self>) -> (v: Option<MPCMetricDType>)
        ensures
            opt_view(v) == self.spec_from_row(r@),
    ;

    /// Reduces this column's values across the given rows into one
    /// aggregate value; `None` when the column defines no aggregation.
    fn aggregate(&self, rows: &Vec<Row<Self>>) -> (v: Option<MPCMetricDType>)
        ensures
            opt_view(v) == self.spec_aggregate(rows_view(rows@)),
    ;
}

/// Whether the list contains the given column, decided with `eq_col`.
pub fn contains_col<T: ColumnMetadata>(v: &Vec<T>, t: &T) -> (r: bool)
    ensures
        r == v@.contains(*t),
{
    let n = v.len();
    let mut i: usize = 0;
    while i < n
        invariant
            n == v@.len(),
            i <= n,
            forall|j: int| 0 <= j < i ==> v@[j] != *t,
        decreases n - i,
    {
        if v[i].eq_col(t) {
            return true;
        }
        i += 1;
    }
    proof {
        assert(forall|j: int| 0 <= j < v@.len() ==> v@[j] != *t);
    }
    false
}

} // verus!
