//! A small framework for composing a GraphQL schema at runtime from
//! independently authored modules.
//!
//! The core pieces are a type registry with deferred field injection and a
//! fixpoint pass that applies the queued injections once their targets
//! exist (`registry`), a schema assembler that lays the accumulated
//! definitions out in a stable order and renders them as SDL text
//! (`schema`), a dual-mode value resolution protocol for turning field
//! results — options, results, sequences, scalars — into response values
//! (`resolve`), and an ownership-tagged erasure boundary for interface and
//! union results (`anybox`).  The `demo` modules exercise each pattern the
//! way a schema author would.

pub mod anybox;
pub mod demo;
pub mod registry;
pub mod resolve;
pub mod schema;
pub mod text;
pub mod types;
