//! Configuration documents, the evaluation context, parameter constraints
//! and the order in which resources are invoked.

pub mod config_doc;
pub mod context;
pub mod constraints;
pub mod contraints;
pub mod depends_on;
pub mod configurator;
pub mod parameters;
pub mod config_progress;
pub mod outcomes;
pub mod set_run;
pub mod get_run;
pub mod test_run;
