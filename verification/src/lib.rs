//! A column dependency scheduler and typed value pipeline for tabular
//! aggregate metrics over secret-shared data.
//!
//! The crate declares a typed, named set of computable columns with explicit
//! inter-column dependencies, linearizes those dependencies into a
//! deterministic evaluation order, represents records as column-to-value
//! mappings, and streams raw delimited input through tokenization and type
//! conversion into that record representation.

pub mod column_metadata;
pub mod dag;
pub mod execution_config;
pub mod input_processor;
pub mod input_reader;
pub mod log_level;
pub mod metric_config;
pub mod metric_config_builder;
pub mod mpc_config;
pub mod mpc_config_builder;
pub mod mpc_game;
pub mod mpc_metric_dtype;
pub mod mpc_role;
pub mod mpc_view;
pub mod mpc_view_builder;
pub mod network_config;
pub mod network_config_builder;
pub mod operation_config;
pub mod operation_config_builder;
pub mod row;
pub mod sample_columns;
pub mod text;
pub mod tokenizer;
