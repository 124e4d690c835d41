//! Self-hosted music engine: library, players, search and stream tokens.

pub mod library;
pub mod music_laws;
pub mod path;
pub mod player;
pub mod player_laws;
pub mod registry;
pub mod search;
pub mod shuffle;

pub use library::Cover;
pub use library::Format;
pub use library::Library;
pub use library::Track;
pub use player::PlayerState;
pub use player::Repeat;
pub use registry::PlaybackRegistry;
pub use registry::ResolvedStream;
pub use registry::StreamSource;
