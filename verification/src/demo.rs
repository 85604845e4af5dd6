//! Example schemas built against the registry and the resolution protocol,
//! one module per pattern: plain objects, deferred field injection, enums,
//! unions with tagged dispatch, mutations, and interfaces.

pub mod simple_object;
pub mod enums;
pub mod expand_object;
pub mod interfaces;
pub mod mutation;
pub mod union;
pub mod auto;
pub mod interface_output;
pub mod input_list;
pub mod output_types;
pub mod oneof;
pub mod union_with_interface;
