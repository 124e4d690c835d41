//! ASK v1 protocol types, intent classification, responses, SSML.

pub mod intent;
pub mod request;
pub mod request_laws;
pub mod response;
pub mod ssml;
pub mod ssml_laws;
pub mod times;

pub use intent::parse_time_slot;
pub use intent::IntentKind;
pub use request::Envelope;
pub use request::PlayerActivity;
pub use response::audio_item;
pub use response::AudioItem;
pub use response::Response;
pub use response::ResponseBuilder;
