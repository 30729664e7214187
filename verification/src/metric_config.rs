//! Ties an input source to a column selection: everything the metric
//! pipeline needs to know where the records come from and which columns to
//! evaluate over them.

use vstd::prelude::*;
use crate::column_metadata::ColumnMetadata;
use crate::input_reader::InputReader;
use crate::mpc_view::MPCView;

verus! {

/// An input source paired with the column selection to evaluate.
pub struct MetricConfig<T: ColumnMetadata, R: InputReader> {
    pub(crate) input_reader: R,
    pub(crate) view: MPCView<T>,
}

impl<T: ColumnMetadata, R: InputReader> MetricConfig<T, R> {
    /// The paired column selection.
    pub closed spec fn view_spec(&self) -> MPCView<T> {
        self.view
    }

    /// Pairs the input source with the column selection, kept as given.
    pub fn new(input_reader: R, view: MPCView<T>) -> (r: MetricConfig<T, R>)
        ensures
            r.view_spec() == view,
    {
        MetricConfig { input_reader, view }
    }
}

} // verus!
