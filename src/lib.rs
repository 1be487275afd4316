pub mod list;
pub mod metadata;
pub mod play;
pub mod queue;
pub mod restart;
pub mod runner;
pub mod search;
pub mod session;
pub mod snapshot;
pub mod text;
pub mod track;
pub mod ws;
