//! athenaCL front-end core: the protocol spoken between the user interface, the command worker
//! that owns the script engine, and the playback coordinator that drives the audio backends;
//! also the reading of the engine's XML documents.

pub mod app;
pub mod interpreter;
pub mod output;
pub mod player;
pub mod worker;
pub mod xml_tools;
