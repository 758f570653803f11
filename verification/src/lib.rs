//! Turns a line-oriented chat stream into speech.
//!
//! The library holds what is decided on the way from a chat line to its
//! sound: the parser of chat lines, what the protocol reader sends and
//! answers, the hand-off queue between reader and worker, the steps that
//! the worker takes for each message, and the stream of audio chunks drawn
//! from the speech engine. Sockets, threads, files, the engine and the
//! outside tools are driven by the program around it.

pub mod config;
pub mod irc;
pub mod piper;
pub mod queue;
pub mod reader;
pub mod text;
pub mod worker;
