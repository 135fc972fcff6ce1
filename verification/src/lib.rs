//! Game session helpers: asset routing and compaction, process matching,
//! GPU recognition and profile defaults, with verified contracts.

pub mod text;
pub mod path;
pub mod watch;
pub mod platform;
pub mod profile;
pub mod gpu;
pub mod process;
pub mod mesh;
pub mod unity_bundle;
pub mod vrchat;
pub mod texture;
pub mod assets;
pub mod cli;
pub mod optimizer;
pub mod cache;
pub mod session;
pub mod refresh;
