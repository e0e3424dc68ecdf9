//! Types whose serializers are what `#[derive(IntoSerializer)]` produces,
//! written out: structs with named fields become JSON objects (renamed keys,
//! fields left out where their skip condition holds), enums become the
//! quoted name of their variant.
pub mod attributes;
pub mod basic;
pub mod containers;
pub mod edge_cases;
pub mod embedded;
pub mod enums;
pub mod members;
