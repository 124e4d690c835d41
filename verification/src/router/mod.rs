//! Intent router: maps classified ASK intents to audio-engine actions or
//! ZeroClaw agent turns.

pub mod action;
pub mod decision;
pub mod dispatch;
pub mod laws;
pub mod play;
pub mod play_laws;
pub mod radio;
pub mod turn;
pub mod turn_laws;

pub use action::finish_play;
pub use action::Action;
pub use decision::parse_decision;
pub use dispatch::handle_alexa;
pub use play::start_file;
pub use turn::finish_approval;
pub use turn::finish_turn;
