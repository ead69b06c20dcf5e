//! Looks up the size (variable count) of an optimization model instance in a
//! remote catalog, starting from a log file name of the form
//! `<MODEL_NAME>-init.csv`.

pub mod auto_size;
pub mod error;
