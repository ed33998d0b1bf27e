//! Native functions: the registry of their signatures and the built-in set.

pub mod function_registry;
pub mod native_functions;
