//! The column selection for one evaluation run: which columns come from
//! input, which are derived helpers, which are output metrics, and which
//! sets of columns are aggregated together. The scheduler derives its
//! dependency graph from exactly this selection.

use vstd::prelude::*;
use crate::column_metadata::ColumnMetadata;

verus! {

/// A selection of input, helper, and metric columns, with the grouping sets
/// passed through to the aggregation stage.
pub struct MPCView<T: ColumnMetadata> {
    pub input_columns: Vec<T>,
    pub helper_columns: Vec<T>,
    pub metrics: Vec<T>,
    pub grouping_sets: Vec<Vec<T>>,
}

impl<T: ColumnMetadata> MPCView<T> {
    /// The declared input columns, in declaration order.
    pub open spec fn input_columns_spec(&self) -> Seq<T> {
        self.input_columns@
    }

    /// The declared helper columns, in declaration order.
    pub open spec fn helper_columns_spec(&self) -> Seq<T> {
        self.helper_columns@
    }

    /// The declared metric columns, in declaration order.
    pub open spec fn metrics_spec(&self) -> Seq<T> {
        self.metrics@
    }

    /// The declared grouping sets, each a sequence of columns.
    pub open spec fn grouping_sets_spec(&self) -> Seq<Seq<T>> {
        Seq::new(self.grouping_sets@.len(), |i: int| self.grouping_sets@[i]@)
    }

    /// Assembles a view from the three column lists and the grouping sets,
    /// kept exactly as given.
    pub fn new(
        input_columns: Vec<T>,
        helper_columns: Vec<T>,
        metrics: Vec<T>,
        grouping_sets: Vec<Vec<T>>,
    ) -> (r: MPCView<T>)
        ensures
            r.input_columns_spec() == input_columns@,
            r.helper_columns_spec() == helper_columns@,
            r.metrics_spec() == metrics@,
            r.grouping_sets_spec() == Seq::new(grouping_sets@.len(), |i: int| grouping_sets@[i]@),
    {
        MPCView { input_columns, helper_columns, metrics, grouping_sets }
    }
}

} // verus!
