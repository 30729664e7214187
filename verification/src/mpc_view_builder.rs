//! Builder-style construction of an [`MPCView`]: columns and grouping sets
//! are appended one at a time, in the order they will be declared to the
//! scheduler.

use vstd::prelude::*;
use crate::column_metadata::ColumnMetadata;
use crate::mpc_role::MPCRole;
use crate::mpc_view::MPCView;

verus! {

/// Accumulates the column selection for an [`MPCView`].
pub struct MPCViewBuilder<T: ColumnMetadata> {
    input_columns: Vec<T>,
    helper_columns: Vec<T>,
    metrics: Vec<T>,
    grouping_sets: Vec<Vec<T>>,
}

impl<T: ColumnMetadata> MPCViewBuilder<T> {
    /// The input columns appended so far.
    pub closed spec fn input_columns_spec(&self) -> Seq<T> {
        self.input_columns@
    }

    /// The helper columns appended so far.
    pub closed spec fn helper_columns_spec(&self) -> Seq<T> {
        self.helper_columns@
    }

    /// The metric columns appended so far.
    pub closed spec fn metrics_spec(&self) -> Seq<T> {
        self.metrics@
    }

    /// The grouping sets appended so far.
    pub closed spec fn grouping_sets_spec(&self) -> Seq<Seq<T>> {
        Seq::new(self.grouping_sets@.len(), |i: int| self.grouping_sets@[i]@)
    }

    /// An empty selection.
    pub fn new() -> (r: MPCViewBuilder<T>)
        ensures
            r.input_columns_spec() == Seq::<T>::empty(),
            r.helper_columns_spec() == Seq::<T>::empty(),
            r.metrics_spec() == Seq::<T>::empty(),
            r.grouping_sets_spec() == Seq::<Seq<T>>::empty(),
    {
        let r = MPCViewBuilder {
            input_columns: Vec::new(),
            helper_columns: Vec::new(),
            metrics: Vec::new(),
            grouping_sets: Vec::new(),
        };
        proof {
            assert(r.grouping_sets_spec() =~= Seq::<Seq<T>>::empty());
        }
        r
    }

    /// Appends one input column; the owning party's role is recorded by the
    /// surrounding configuration, not by the view.
    pub fn with_input_column(&mut self, role: MPCRole, col: T) -> (r: &Self)
        ensures
            final(self).input_columns_spec() == old(self).input_columns_spec().push(col),
            final(self).helper_columns_spec() == old(self).helper_columns_spec(),
            final(self).metrics_spec() == old(self).metrics_spec(),
            final(self).grouping_sets_spec() == old(self).grouping_sets_spec(),
    {
        self.input_columns.push(col);
        proof {
            assert(self.grouping_sets_spec() =~= old(self).grouping_sets_spec());
        }
        self
    }

    /// Appends one helper (derived) column.
    pub fn with_helper_column(&mut self, col: T) -> (r: &Self)
        ensures
            final(self).input_columns_spec() == old(self).input_columns_spec(),
            final(self).helper_columns_spec() == old(self).helper_columns_spec().push(col),
            final(self).metrics_spec() == old(self).metrics_spec(),
            final(self).grouping_sets_spec() == old(self).grouping_sets_spec(),
    {
        self.helper_columns.push(col);
        proof {
            assert(self.grouping_sets_spec() =~= old(self).grouping_sets_spec());
        }
        self
    }

    /// Appends one output metric column.
    pub fn with_metric(&mut self, metric: T) -> (r: &Self)
        ensures
            final(self).input_columns_spec() == old(self).input_columns_spec(),
            final(self).helper_columns_spec() == old(self).helper_columns_spec(),
            final(self).metrics_spec() == old(self).metrics_spec().push(metric),
            final(self).grouping_sets_spec() == old(self).grouping_sets_spec(),
    {
        self.metrics.push(metric);
        proof {
            assert(self.grouping_sets_spec() =~= old(self).grouping_sets_spec());
        }
        self
    }

    /// Appends one grouping set.
    pub fn with_grouping_set(&mut self, grouping_set: Vec<T>) -> (r: &Self)
        ensures
            final(self).input_columns_spec() == old(self).input_columns_spec(),
            final(self).helper_columns_spec() == old(self).helper_columns_spec(),
            final(self).metrics_spec() == old(self).metrics_spec(),
            final(self).grouping_sets_spec() == old(self).grouping_sets_spec().push(
                grouping_set@,
            ),
    {
        self.grouping_sets.push(grouping_set);
        proof {
            assert(self.grouping_sets_spec() =~= old(self).grouping_sets_spec().push(
                grouping_set@,
            ));
        }
        self
    }

    /// Finishes the selection as an [`MPCView`], keeping every list as
    /// appended.
    pub fn build(self) -> (r: MPCView<T>)
        ensures
            r.input_columns_spec() == self.input_columns_spec(),
            r.helper_columns_spec() == self.helper_columns_spec(),
            r.metrics_spec() == self.metrics_spec(),
            r.grouping_sets_spec() == self.grouping_sets_spec(),
    {
        let r = MPCView::new(self.input_columns, self.helper_columns, self.metrics, self.grouping_sets);
        r
    }
}

} // verus!
