//! What the library promises of its operations: laws over their inputs and
//! results, each proved of what the operations' contracts state.

pub mod codecs;
pub mod levels;
pub mod machine;
pub mod pages;
pub mod routing;
pub mod sessions;
pub mod settings;
pub mod streams;
pub mod subprocess;
pub mod tables;
pub mod voe;
pub mod wire;
