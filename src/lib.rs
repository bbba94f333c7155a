//! Glue-side helpers for exposing functions and modules to an embedding
//! runtime: binding of positional and keyword arguments against a declared
//! parameter list, and the decision logic of module bootstrap.

pub mod arg_error;
pub mod binder;
pub mod binding_laws;
pub mod bootstrap;
pub mod bootstrap_laws;
pub mod params;

pub use arg_error::ArgError;
pub use binder::parse_fn_args;
pub use params::{KeywordArgs, ParamDescription};
pub use bootstrap::{Abi, Action, Bootstrap, Event, Outcome, Phase};
