//! Resolution of a program's runtime configuration from the
//! environment it runs in, and the policy that decides when it should
//! stop.
//!
//! Two environments are supported. In the standalone environment the
//! configuration comes from command-line flag values, and every
//! invalid value is rejected with a descriptive error. In the embedded
//! environment it comes from the query string of a page URL, and every
//! invalid value falls back silently to a documented default. Both
//! environments resolve the selected module names against an external
//! registry and default an empty selection to the whole registry, in
//! registry order.

pub mod embedded;
pub mod errors;
pub mod laws;
pub mod registry;
pub mod resolution;
pub mod standalone;
pub mod text;
