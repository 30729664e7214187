//! Builder-style construction of a [`MetricConfig`]: the input source and
//! the column selection are supplied one at a time, and the configuration
//! is built once the source is in place.

use vstd::prelude::*;
use crate::column_metadata::ColumnMetadata;
use crate::input_reader::InputReader;
use crate::metric_config::MetricConfig;
use crate::mpc_view::MPCView;
use crate::mpc_view_builder::MPCViewBuilder;

verus! {

/// Accumulates the input source and column selection for a
/// [`MetricConfig`].
pub struct MetricConfigBuilder<T: ColumnMetadata, R: InputReader> {
    input_reader: Option<R>,
    view: MPCView<T>,
}

impl<T: ColumnMetadata, R: InputReader> MetricConfigBuilder<T, R> {
    /// Whether an input source has been supplied yet.
    pub closed spec fn has_input_reader(&self) -> bool {
        self.input_reader is Some
    }

    /// The column selection set so far.
    pub closed spec fn view_spec(&self) -> MPCView<T> {
        self.view
    }

    /// An empty configuration: no input source yet, and an empty column
    /// selection.
    pub fn new() -> (r: MetricConfigBuilder<T, R>)
        ensures
            !r.has_input_reader(),
            r.view_spec().input_columns_spec() == Seq::<T>::empty(),
            r.view_spec().helper_columns_spec() == Seq::<T>::empty(),
            r.view_spec().metrics_spec() == Seq::<T>::empty(),
    {
        MetricConfigBuilder { input_reader: None, view: MPCViewBuilder::new().build() }
    }

    /// Supplies the input source.
    pub fn with_input_reader(&mut self, input_reader: R) -> (r: &Self)
        ensures
            final(self).has_input_reader(),
            final(self).view_spec() == old(self).view_spec(),
    {
        self.input_reader = Some(input_reader);
        self
    }

    /// Supplies the column selection.
    pub fn with_view(&mut self, view: MPCView<T>) -> (r: &Self)
        ensures
            final(self).has_input_reader() == old(self).has_input_reader(),
            final(self).view_spec() == view,
    {
        self.view = view;
        self
    }

    /// Builds the configuration; an input source must have been supplied.
    pub fn build(self) -> (r: MetricConfig<T, R>)
        requires
            self.has_input_reader(),
        ensures
            r.view_spec() == self.view_spec(),
    {
        match self.input_reader {
            Some(reader) => MetricConfig::new(reader, self.view),
            None => unreached(),
        }
    }
}

} // verus!
