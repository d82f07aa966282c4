//! Verified core of the ChocoModrinth launcher's profile, server and
//! compression features: the text formats it reads and writes, the rules
//! by which it names, moves, archives and configures things, and the
//! choices it makes among versions offered by loader metadata services.
pub mod text;
pub mod properties;
pub mod numbers;
pub mod java;
pub mod loader;
pub mod names;
pub mod servers;
pub mod moves;
pub mod archive;
pub mod versions;
pub mod config;
pub mod metadata;
pub mod encoding;
pub mod content;
pub mod control;
