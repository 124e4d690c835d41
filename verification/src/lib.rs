//! Voice front-end for a ZeroClaw agent: the Alexa protocol, the music engine
//! and the request router as verified code.

pub mod agent;
pub mod alexa;
pub mod audio;
pub mod cli;
pub mod config;
pub mod json;
pub mod persist;
pub mod router;
pub mod setup_laws;
pub mod sort;
pub mod state;
pub mod stream;
pub mod stream_laws;
pub mod string_map;
pub mod text;
pub mod tls;
pub mod zeroclaw;
