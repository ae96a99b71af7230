//! Sources of permission information.
pub mod fakedb;
pub mod postgres;
