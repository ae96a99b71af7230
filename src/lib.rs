//! Reconciles the access-control state of a database (roles, memberships,
//! ownership and granted privileges) against a declarative specification.
pub mod adapters;
pub mod analyzer;
pub mod context;
pub mod diff;
pub mod generate;
pub mod grants;
pub mod simple_grants;
pub mod spec;
pub mod strings;
