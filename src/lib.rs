//! Launcher logic for a pair of companion development servers: deciding
//! whether to initialize or sync them, planning the builds, building their
//! start commands, and framing and tagging their output line by line.

pub mod args;
pub mod framer;
pub mod plan;
pub mod tagger;
pub mod text;
