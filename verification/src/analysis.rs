//! Analysis of the packages and symbols a module uses.
pub mod block_scope;
pub mod builtin;
pub mod builtins;
pub mod dependencies;
pub mod reach;
pub mod imports;
pub mod exports;
pub mod live_exports;
pub mod roots;
