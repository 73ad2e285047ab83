//! Symbolication core: turns a model of a compiled unit's debug-information
//! tree into a queryable mapping from instruction-address ranges to
//! human-readable call-frame descriptions (function name, nesting depth),
//! including frames that exist only because of compiler inlining.

pub mod demangle;
pub mod dep;
pub mod extract;
pub mod framemap;
pub mod laws;
pub mod model;
pub mod pc2frames;
