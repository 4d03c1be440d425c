//! The core of a chat-platform automation service: a batch engine that renames
//! a chosen subset of members from a finite pool of labels, and the playback
//! queue of a voice session with the controller that decides what a play
//! request does to it.
//!
//! Everything here works on plain values. Whatever talks to the platform or to
//! the audio transport lives outside and drives these types step by step.

pub mod batch;
pub mod chance;
pub mod controller;
pub mod files;
pub mod member;
pub mod pool;
pub mod queue;
pub mod selection;
pub mod source;
pub mod text;
pub mod worker;
