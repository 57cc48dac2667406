//! The editor's own decisions, apart from drawing them: keyboard navigation,
//! labels and formats, the decode cache, and what the command line makes of
//! a session's answers.

pub mod navigation;
pub mod worker;
pub mod labels;
pub mod host;
pub mod cli;
pub mod timeline;
pub mod recovery;
pub mod audio_setup;
pub mod shortcuts;
pub mod batch;
pub mod changes;
pub mod jobs;
pub mod mcp;
