//! Synthesis of a stable, C-callable boundary layer for exported types and
//! methods: a type lowering table that maps rich logical types to ABI-safe
//! representations, a deterministic symbol naming scheme, runtime descriptors
//! for strings, optionals and fallible results, and an export synthesizer that
//! walks a declaration model and emits one bridge export per accessor, method
//! and destructor, reporting coded diagnostics for policy violations.

pub mod decl;
pub mod descriptor;
pub mod diag;
pub mod handles;
pub mod laws;
pub mod lowering;
pub mod mod_path;
pub mod naming;
pub mod synth;
