//! Building a runtime from its specification: id assignment, component
//! builders, the assembled runtime and its wiring plans.
pub mod ids;
pub mod builders;
pub mod registry;
pub mod assembly;
pub mod wiring;
pub mod dsl;
